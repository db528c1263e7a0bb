use infinite_grid::visibility::{collect_shadow_casters, ShadowCaster};

fn caster(id: u64, visible: bool, not_shadow_caster: bool) -> ShadowCaster {
    ShadowCaster { id, visible, not_shadow_caster }
}

/// Visible, non-exempt entities are kept in scene order; hidden or exempt
/// ones are dropped.
#[test]
fn filters_hidden_and_exempt() {
    let casters = vec![
        caster(1, true, false),
        caster(2, false, false),
        caster(3, true, true),
        caster(4, true, false),
        caster(5, false, true),
    ];
    assert_eq!(collect_shadow_casters(&casters), vec![1, 4]);
}

/// An empty scene yields an empty list.
#[test]
fn empty_scene() {
    assert_eq!(collect_shadow_casters(&Vec::new()), Vec::<u64>::new());
}

/// Everything eligible is kept, duplicates of an id included.
#[test]
fn keeps_all_eligible() {
    let casters = vec![caster(7, true, false), caster(7, true, false), caster(9, true, false)];
    assert_eq!(collect_shadow_casters(&casters), vec![7, 7, 9]);
}

/// No spatial culling happens: an eligible entity is included however far
/// from the grid it stands (a documented incompleteness of the linker).
#[test]
fn no_spatial_culling() {
    let casters = vec![caster(u64::MAX, true, false)];
    assert_eq!(collect_shadow_casters(&casters), vec![u64::MAX]);
}
