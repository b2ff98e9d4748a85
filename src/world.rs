//! An arena of entities, each with the components the game attaches to it.
//!
//! Entities are numbered in order of creation and never reused: deleting one
//! only marks it dead. A parent is always created before its children, so every
//! parent link points to a lower number.
use vstd::prelude::*;

use crate::components::{Ball, Paddle};

verus! {

/// A handle on an entity of a `World`.
#[derive(Debug, Clone, Copy, PartialEq, Eq, Structural)]
pub struct Entity(pub usize);

/// The names under which user interface elements can be looked up.
#[derive(Debug, Clone, Copy, PartialEq, Eq, Structural)]
pub enum UiId {
    Start,
    Load,
    Options,
    Credits,
    Resume,
    ExitToMainMenu,
    Exit,
}

/// A position in the arena, in steps.
#[derive(Debug, Clone, Copy, PartialEq, Eq, Structural)]
pub struct Transform {
    pub x: i64,
    pub y: i64,
}

/// Everything the world knows of one entity but its text.
#[derive(Debug, Clone, Copy)]
pub struct EntityRecord {
    pub alive: bool,
    pub parent: Option<Entity>,
    pub ui_id: Option<UiId>,
    pub transform: Option<Transform>,
    pub ball: Option<Ball>,
    pub paddle: Option<Paddle>,
    pub camera: bool,
}

impl EntityRecord {
    /// A live entity with a parent link and no component.
    pub fn new(parent: Option<Entity>) -> (r: Self)
        ensures
            r == Self::bare(parent),
    {
        EntityRecord {
            alive: true,
            parent,
            ui_id: None,
            transform: None,
            ball: None,
            paddle: None,
            camera: false,
        }
    }

    pub open spec fn bare(parent: Option<Entity>) -> Self {
        EntityRecord {
            alive: true,
            parent,
            ui_id: None,
            transform: None,
            ball: None,
            paddle: None,
            camera: false,
        }
    }
}

/// Two records that differ at most in whether the entity is alive.
pub open spec fn same_components(a: EntityRecord, b: EntityRecord) -> bool {
    &&& a.parent == b.parent
    &&& a.ui_id == b.ui_id
    &&& a.transform == b.transform
    &&& a.ball == b.ball
    &&& a.paddle == b.paddle
    &&& a.camera == b.camera
}

pub open spec fn with_alive(r: EntityRecord, alive: bool) -> EntityRecord {
    EntityRecord {
        alive,
        parent: r.parent,
        ui_id: r.ui_id,
        transform: r.transform,
        ball: r.ball,
        paddle: r.paddle,
        camera: r.camera,
    }
}

/// The records after deleting `root` and everything below it.
pub open spec fn deleted(records: Seq<EntityRecord>, root: nat) -> Seq<EntityRecord> {
    Seq::new(
        records.len(),
        |i: int| with_alive(records[i], records[i].alive && !in_tree(records, i as nat, root)),
    )
}

/// Deleting an entity that is already dead, or that never existed.
#[derive(Debug, Clone, Copy, PartialEq, Eq, Structural)]
pub struct WrongGeneration {
    pub entity: Entity,
}

/// Entity `i` is `root` or lies below it, following parent links.
pub open spec fn in_tree(records: Seq<EntityRecord>, i: nat, root: nat) -> bool
    decreases i,
{
    if i == root {
        true
    } else if i < records.len() {
        match records[i as int].parent {
            Some(p) => p.0 < i && in_tree(records, p.0 as nat, root),
            None => false,
        }
    } else {
        false
    }
}

/// Nothing below a root has a lower number than the root.
pub proof fn lemma_tree_above_root(records: Seq<EntityRecord>, i: nat, root: nat)
    requires
        in_tree(records, i, root),
    ensures
        root <= i,
    decreases i,
{
    if i != root {
        let p = records[i as int].parent.unwrap();
        lemma_tree_above_root(records, p.0 as nat, root);
    }
}

/// Deleting a hierarchy leaves no part of it alive: its root and every entity
/// below it are dead afterwards, and every other entity is as it was.
pub proof fn lemma_deleted_hierarchy_is_gone(records: Seq<EntityRecord>, root: nat)
    ensures
        deleted(records, root).len() == records.len(),
        forall|i: int|
            0 <= i < records.len() && in_tree(records, i as nat, root) ==> !(#[trigger] deleted(
                records,
                root,
            )[i]).alive,
        forall|i: int|
            0 <= i < records.len() && !in_tree(records, i as nat, root) ==> #[trigger] deleted(
                records,
                root,
            )[i].alive == records[i].alive,
        root < records.len() ==> !deleted(records, root)[root as int].alive,
{
}

/// A root without a parent holds no other root.
pub proof fn lemma_parentless_outside(records: Seq<EntityRecord>, i: nat, root: nat)
    requires
        i < records.len(),
        records[i as int].parent is None,
        i != root,
    ensures
        !in_tree(records, i, root),
{
}

/// A record that may stand at index `i`: its parent comes first, and its
/// components are well formed.
pub open spec fn record_wf(r: EntityRecord, i: int) -> bool {
    &&& match r.parent {
        Some(p) => p.0 < i,
        None => true,
    }
    &&& match r.ball {
        Some(b) => b.wf(),
        None => true,
    }
    &&& match r.paddle {
        Some(p) => p.wf(),
        None => true,
    }
}

pub open spec fn text_view(t: Option<String>) -> Option<Seq<char>> {
    match t {
        Some(s) => Some(s@),
        None => None,
    }
}

pub struct World {
    pub records: Vec<EntityRecord>,
    pub texts: Vec<Option<String>>,
}

impl World {
    /// Every entity has its text slot, and every parent was created before its child.
    pub open spec fn wf(&self) -> bool {
        &&& self.records@.len() == self.texts@.len()
        &&& forall|i: int|
            0 <= i < self.records@.len() ==> record_wf(#[trigger] self.records@[i], i)
    }

    pub open spec fn spec_alive(&self, e: Entity) -> bool {
        e.0 < self.records@.len() && self.records@[e.0 as int].alive
    }

    /// An entity that is held, if any, is alive.
    pub open spec fn alive_if_held(&self, e: Option<Entity>) -> bool {
        match e {
            Some(x) => self.spec_alive(x),
            None => true,
        }
    }

    /// The entity that the next creation makes.
    pub open spec fn next_entity(&self) -> Entity {
        Entity(self.records@.len() as usize)
    }

    /// A root entity: alive and without a parent.
    pub open spec fn is_root(&self, e: Entity) -> bool {
        self.spec_alive(e) && self.records@[e.0 as int].parent is None
    }

    /// Every entity of `before` is still there, alive or dead as it was, under
    /// the same parent.
    pub open spec fn keeps(&self, before: &World) -> bool {
        &&& before.records@.len() <= self.records@.len()
        &&& forall|i: int|
            0 <= i < before.records@.len() ==> #[trigger] self.records@[i].alive
                == before.records@[i].alive && self.records@[i].parent == before.records@[i].parent
    }

    /// The entity has a text component.
    pub open spec fn has_text(&self, e: Entity) -> bool {
        e.0 < self.texts@.len() && self.texts@[e.0 as int] is Some
    }

    /// What each entity's text reads, if it has one.
    pub open spec fn texts_view(&self) -> Seq<Option<Seq<char>>> {
        self.texts@.map_values(|t: Option<String>| text_view(t))
    }

    /// `texts` after showing `s` on `e`, which takes effect only on a live
    /// entity that has a text.
    pub open spec fn shown(&self, texts: Seq<Option<Seq<char>>>, e: Entity, s: Seq<char>) -> Seq<
        Option<Seq<char>>,
    > {
        if self.spec_alive(e) && self.has_text(e) {
            texts.update(e.0 as int, Some(s))
        } else {
            texts
        }
    }

    pub fn new() -> (r: Self)
        ensures
            r.wf(),
            r.records@.len() == 0,
    {
        World { records: Vec::new(), texts: Vec::new() }
    }

    /// How many entities were ever created.
    pub fn len(&self) -> (r: usize)
        ensures
            r == self.records@.len(),
    {
        self.records.len()
    }

    pub fn is_alive(&self, e: Entity) -> (r: bool)
        ensures
            r == self.spec_alive(e),
    {
        e.0 < self.records.len() && self.records[e.0].alive
    }

    /// Adds a live entity made of `record` and an optional text, and returns it.
    pub fn create_entity(&mut self, record: EntityRecord, text: Option<String>) -> (r: Entity)
        requires
            old(self).wf(),
            record.alive,
            record_wf(record, old(self).records@.len() as int),
        ensures
            final(self).wf(),
            r.0 == old(self).records@.len(),
            final(self).records@ == old(self).records@.push(record),
            final(self).texts@ == old(self).texts@.push(text),
            final(self).keeps(old(self)),
    {
        let r = Entity(self.records.len());
        self.records.push(record);
        self.texts.push(text);
        r
    }

    /// The text of an entity, if it has one.
    pub fn text(&self, e: Entity) -> (r: Option<String>)
        ensures
            match r {
                Some(s) => self.has_text(e) && self.texts@[e.0 as int] == Some(s),
                None => !self.has_text(e),
            },
    {
        if e.0 < self.texts.len() {
            match &self.texts[e.0] {
                Some(s) => Some(s.clone()),
                None => None,
            }
        } else {
            None
        }
    }

    /// Replaces the text of a live entity that has one; otherwise changes nothing.
    pub fn set_text(&mut self, e: Entity, s: String)
        requires
            old(self).wf(),
        ensures
            final(self).wf(),
            final(self).records@ == old(self).records@,
            old(self).spec_alive(e) && old(self).has_text(e) ==> final(self).texts@ == old(
                self,
            ).texts@.update(e.0 as int, Some(s)),
            !(old(self).spec_alive(e) && old(self).has_text(e)) ==> final(self).texts@ == old(
                self,
            ).texts@,
            final(self).texts_view() == old(self).shown(old(self).texts_view(), e, s@),
    {
        if e.0 < self.texts.len() && self.records[e.0].alive && self.texts[e.0].is_some() {
            let ghost v = s@;
            self.texts.set(e.0, Some(s));
            assert(self.texts_view() =~= old(self).texts_view().update(e.0 as int, Some(v)));
        } else {
            assert(self.texts_view() =~= old(self).texts_view());
        }
    }

    /// The first live entity named `id`.
    pub fn find(&self, id: UiId) -> (r: Option<Entity>)
        ensures
            match r {
                Some(e) => {
                    &&& self.spec_alive(e)
                    &&& self.records@[e.0 as int].ui_id == Some(id)
                    &&& forall|j: int|
                        0 <= j < e.0 ==> !(#[trigger] self.records@[j].alive
                            && self.records@[j].ui_id == Some(id))
                },
                None => forall|j: int|
                    0 <= j < self.records@.len() ==> !(#[trigger] self.records@[j].alive
                        && self.records@[j].ui_id == Some(id)),
            },
    {
        let mut i: usize = 0;
        while i < self.records.len()
            invariant
                i <= self.records@.len(),
                forall|j: int|
                    0 <= j < i ==> !(#[trigger] self.records@[j].alive && self.records@[j].ui_id
                        == Some(id)),
            decreases self.records@.len() - i,
        {
            let rec = self.records[i];
            if rec.alive && rec.ui_id == Some(id) {
                return Some(Entity(i));
            }
            i = i + 1;
        }
        None
    }
}

/// Deletes `root` and every entity below it. Fails, changing nothing, when
/// `root` is not alive.
pub fn delete_hierarchy(root: Entity, world: &mut World) -> (r: Result<(), WrongGeneration>)
    requires
        old(world).wf(),
    ensures
        final(world).wf(),
        final(world).texts@ == old(world).texts@,
        final(world).records@.len() == old(world).records@.len(),
        r is Ok <==> old(world).spec_alive(root),
        r is Err ==> final(world).records@ == old(world).records@,
        r is Err ==> r == Err::<(), WrongGeneration>(WrongGeneration { entity: root }),
        r is Ok ==> final(world).records@ == deleted(old(world).records@, root.0 as nat),
{
    if !world.is_alive(root) {
        return Err(WrongGeneration { entity: root });
    }
    let n = world.records.len();
    let mut below: Vec<bool> = Vec::new();
    let mut i: usize = 0;
    while i < n
        invariant
            world.wf(),
            n == world.records@.len(),
            old(world).wf(),
            old(world).records@.len() == n,
            world.texts@ == old(world).texts@,
            i <= n,
            below@.len() == i,
            root.0 < n,
            forall|j: int| 0 <= j < i ==> #[trigger] below@[j] == in_tree(old(world).records@, j as nat, root.0 as nat),
            forall|j: int|
                0 <= j < n ==> same_components(#[trigger] world.records@[j], old(world).records@[j]),
            forall|j: int|
                0 <= j < i ==> #[trigger] world.records@[j].alive == (old(world).records@[j].alive
                    && !in_tree(old(world).records@, j as nat, root.0 as nat)),
            forall|j: int| i <= j < n ==> #[trigger] world.records@[j] == old(world).records@[j],
        decreases n - i,
    {
        let mut rec = world.records[i];
        assert(record_wf(rec, i as int));
        let hit = if i == root.0 {
            true
        } else {
            match rec.parent {
                Some(p) => p.0 < i && below[p.0],
                None => false,
            }
        };
        below.push(hit);
        if hit {
            rec.alive = false;
            world.records.set(i, rec);
        }
        i = i + 1;
    }
    assert forall|j: int| 0 <= j < n implies #[trigger] world.records@[j] == deleted(
        old(world).records@,
        root.0 as nat,
    )[j] by {
        let a = world.records@[j];
        let b = deleted(old(world).records@, root.0 as nat)[j];
        assert(same_components(a, old(world).records@[j]));
        assert(a.alive == b.alive);
        assert(a.parent == b.parent && a.ui_id == b.ui_id && a.transform == b.transform);
        assert(a.ball == b.ball && a.paddle == b.paddle && a.camera == b.camera);
    }
    assert(world.records@ =~= deleted(old(world).records@, root.0 as nat));
    Ok(())
}

} // verus!
