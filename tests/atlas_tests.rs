use minecraft_clone::atlas::{atlas_layout, AtlasSlot};

#[test]
fn atlas_lays_textures_side_by_side() {
    let l = atlas_layout(&vec![(16, 16), (8, 32), (4, 4)]).unwrap();
    assert_eq!(l.width, 16 + 2 + 8 + 2 + 4);
    assert_eq!(l.height, 33);
    assert_eq!(
        l.slots,
        vec![
            AtlasSlot { x_offset: 0, width: 16, height: 16 },
            AtlasSlot { x_offset: 18, width: 8, height: 32 },
            AtlasSlot { x_offset: 28, width: 4, height: 4 },
        ]
    );
}

#[test]
fn atlas_of_one_texture() {
    let l = atlas_layout(&vec![(16, 16)]).unwrap();
    assert_eq!((l.width, l.height), (16, 17));
    assert_eq!(l.slots, vec![AtlasSlot { x_offset: 0, width: 16, height: 16 }]);
}

#[test]
fn atlas_needs_a_texture() {
    assert_eq!(atlas_layout(&vec![]), None);
}

#[test]
fn atlas_too_wide_is_refused() {
    assert_eq!(atlas_layout(&vec![(u32::MAX - 1, 1), (1, 1)]), None);
    assert_eq!(atlas_layout(&vec![(u32::MAX, 1)]), None);
    assert_eq!(atlas_layout(&vec![(1, u32::MAX)]), None);
    assert_eq!(atlas_layout(&vec![(u32::MAX - 2, 1)]).unwrap().width, u32::MAX - 2);
}
