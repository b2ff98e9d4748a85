//! User interface prefabs: a root entity with the named elements beneath it.
use vstd::prelude::*;

use crate::world::{deleted, in_tree, lemma_tree_above_root, record_wf, Entity, EntityRecord, UiId, World};

verus! {

/// The screens' interface descriptions.
#[derive(Debug, Clone, Copy, PartialEq, Eq, Structural)]
pub enum Prefab {
    Welcome,
    Menu,
    PauseMenu,
    Credits,
    Hud,
}

/// The named elements of a prefab, in order.
pub open spec fn prefab_widgets(p: Prefab) -> Seq<UiId> {
    match p {
        Prefab::Menu => seq![UiId::Start, UiId::Load, UiId::Options, UiId::Credits],
        Prefab::PauseMenu => seq![UiId::Resume, UiId::ExitToMainMenu, UiId::Exit],
        _ => seq![],
    }
}

/// A named element beneath `root`.
pub open spec fn widget_record(root: Entity, id: UiId) -> EntityRecord {
    EntityRecord {
        alive: true,
        parent: Some(root),
        ui_id: Some(id),
        transform: None,
        ball: None,
        paddle: None,
        camera: false,
    }
}

/// An instantiated prefab leaves nothing behind once its root's hierarchy is
/// deleted: every entity the instantiation created, the root and each named
/// element, is dead afterwards, and every older entity is as it was.
pub proof fn lemma_prefab_released(before: Seq<EntityRecord>, prefab: Prefab)
    requires
        before.len() < usize::MAX,
    ensures
        ({
            let root = Entity(before.len() as usize);
            let created = before.push(EntityRecord::bare(None)) + prefab_widgets(prefab).map_values(
                |id: UiId| widget_record(root, id),
            );
            let after = deleted(created, before.len());
            &&& after.len() == created.len()
            &&& forall|i: int| before.len() <= i < created.len() ==> !(#[trigger] after[i]).alive
            &&& forall|i: int| 0 <= i < before.len() ==> #[trigger] after[i].alive == before[i].alive
        }),
{
    let root = Entity(before.len() as usize);
    let created = before.push(EntityRecord::bare(None)) + prefab_widgets(prefab).map_values(
        |id: UiId| widget_record(root, id),
    );
    assert forall|i: int| before.len() <= i < created.len() implies #[trigger] in_tree(
        created,
        i as nat,
        before.len(),
    ) by {
        if i > before.len() {
            assert(created[i].parent == Some(root));
            assert(in_tree(created, before.len(), before.len()));
        }
    }
    assert forall|i: int| 0 <= i < before.len() implies !#[trigger] in_tree(created, i as nat, before.len()) by {
        if in_tree(created, i as nat, before.len()) {
            lemma_tree_above_root(created, i as nat, before.len());
        }
    }
}

fn widgets(p: Prefab) -> (r: Vec<UiId>)
    ensures
        r@ == prefab_widgets(p),
{
    let r = match p {
        Prefab::Menu => vec![UiId::Start, UiId::Load, UiId::Options, UiId::Credits],
        Prefab::PauseMenu => vec![UiId::Resume, UiId::ExitToMainMenu, UiId::Exit],
        _ => Vec::new(),
    };
    assert(r@ =~= prefab_widgets(p));
    r
}

/// Instantiates `prefab`: a new root entity, then its named elements as
/// children of the root. Returns the root.
pub fn create_ui(world: &mut World, prefab: Prefab) -> (root: Entity)
    requires
        old(world).wf(),
    ensures
        final(world).wf(),
        final(world).keeps(old(world)),
        root.0 == old(world).records@.len(),
        final(world).is_root(root),
        final(world).records@ == old(world).records@.push(EntityRecord::bare(None))
            + prefab_widgets(prefab).map_values(|id: UiId| widget_record(root, id)),
        final(world).texts@ == old(world).texts@ + Seq::new(
            1 + prefab_widgets(prefab).len(),
            |i: int| None::<String>,
        ),
{
    let root = world.create_entity(EntityRecord::new(None), None);
    let ghost base = *world;
    let ids = widgets(prefab);
    let mut k: usize = 0;
    while k < ids.len()
        invariant
            world.wf(),
            base.wf(),
            ids@ == prefab_widgets(prefab),
            root.0 < base.records@.len(),
            k <= ids@.len(),
            world.records@ == base.records@ + ids@.take(k as int).map_values(
                |id: UiId| widget_record(root, id),
            ),
            world.texts@ == base.texts@ + Seq::new(k as nat, |i: int| None::<String>),
        decreases ids@.len() - k,
    {
        let rec = EntityRecord {
            alive: true,
            parent: Some(root),
            ui_id: Some(ids[k]),
            transform: None,
            ball: None,
            paddle: None,
            camera: false,
        };
        assert(record_wf(rec, world.records@.len() as int));
        world.create_entity(rec, None);
        assert(ids@.take(k + 1) =~= ids@.take(k as int).push(ids@[k as int]));
        assert(world.records@ =~= base.records@ + ids@.take(k + 1).map_values(
            |id: UiId| widget_record(root, id),
        ));
        assert(world.texts@ =~= base.texts@ + Seq::new((k + 1) as nat, |i: int| None::<String>));
        k = k + 1;
    }
    assert(ids@.take(ids@.len() as int) =~= ids@);
    assert(world.texts@ =~= old(world).texts@ + Seq::new(
        1 + prefab_widgets(prefab).len(),
        |i: int| None::<String>,
    ));
    root
}

} // verus!
