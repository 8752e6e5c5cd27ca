use renew_rhi::mesh::{check_desc, layout_for, MeshDesc, INDEX_ALIGN};
use renew_rhi::TargetError;

#[test]
fn every_malformed_mesh_is_rejected_by_name() {
    let bytes = [0u8; 24];
    let good = [0u32, 1, 2];

    let cases: [(MeshDesc<'_>, &str); 6] = [
        (MeshDesc::new(&bytes, 0, &good), "create_mesh(zero vertex stride)"),
        (MeshDesc::new(&[], 8, &good), "create_mesh(no vertices)"),
        (
            MeshDesc::new(&bytes[..23], 8, &good),
            "create_mesh(vertex length is not a whole number of records)",
        ),
        (MeshDesc::new(&bytes, 8, &[]), "create_mesh(no indices)"),
        (MeshDesc::new(&bytes, 8, &[3]), "create_mesh(index past the last vertex)"),
        (MeshDesc::new(&bytes, 8, &[u32::MAX]), "create_mesh(index past the last vertex)"),
    ];
    for (desc, expected) in cases {
        match check_desc(&desc) {
            Err(TargetError::Creation { call, code: 0 }) => {
                assert_eq!(call, expected, "wrong rule named for {desc:?}");
            }
            other => panic!("{desc:?} should be refused as {expected}, got {other:?}"),
        }
    }
}

#[test]
fn the_last_vertex_is_addressable_and_the_one_after_it_is_not() {
    let bytes = [0u8; 24];
    let layout = check_desc(&MeshDesc::new(&bytes, 8, &[0, 1, 2])).expect("three records, indices 0..=2");
    assert_eq!(layout.vertex_count, 3);
    assert!(
        check_desc(&MeshDesc::new(&bytes, 8, &[0, 1, 3])).is_err(),
        "index 3 addresses a fourth record that does not exist"
    );
}

#[test]
fn the_index_region_starts_four_aligned() {
    let aligned = [0u8; 84];
    let layout = check_desc(&MeshDesc::new(&aligned, 28, &[0, 1, 2])).expect("28 * 3 is already 4-aligned");
    assert_eq!(layout.index_offset, 84);
    assert_eq!(layout.total, 84 + 12);

    let ragged = [0u8; 18];
    let layout = check_desc(&MeshDesc::new(&ragged, 6, &[0, 1, 2])).expect("6 * 3 = 18");
    assert_eq!(layout.index_offset, 20, "18 rounds up to the next multiple of 4");
    assert_eq!(layout.total, 32);
}

#[test]
fn every_arithmetic_limit_is_refused_by_name() {
    const U32_MAX: usize = u32::MAX as usize;
    let cases: [(usize, u32, usize, &str); 3] = [
        (usize::MAX / 2 + 1, 1, 3, "create_mesh(vertex count exceeds u32)"),
        (28, 28, usize::MAX / 2, "create_mesh(index count exceeds u32)"),
        (U32_MAX * U32_MAX, u32::MAX, U32_MAX, "create_mesh(total size overflows)"),
    ];
    for (vertex_bytes, stride, index_count, expected) in cases {
        let outcome = layout_for(vertex_bytes, stride, index_count);
        assert!(
            matches!(&outcome, Err(TargetError::Creation { call, code: 0 }) if *call == expected),
            "({vertex_bytes}, {stride}, {index_count}) should be refused as {expected}, got {outcome:?}"
        );
    }
    let layout = layout_for(84, 28, 3).expect("three records of 28 bytes, three indices");
    assert_eq!(layout.vertex_count, 3);
    assert_eq!(layout.total, 96);
}

#[test]
fn the_scan_reads_the_indices_and_not_only_their_count() {
    let bytes = [0u8; 8];
    assert!(check_desc(&MeshDesc::new(&bytes, 1, &[7])).is_ok());
    assert!(check_desc(&MeshDesc::new(&bytes, 1, &[8])).is_err(), "eight records means indices 0..=7");
}

#[test]
fn an_accepted_mesh_keeps_its_regions_apart() {
    let bytes = [0u8; 30];
    let layout = check_desc(&MeshDesc::new(&bytes, 10, &[2, 0, 1, 2])).expect("three records of ten bytes");
    assert_eq!(layout.vertex_count, 3);
    assert!(layout.index_offset >= 30);
    assert_eq!(layout.index_offset % INDEX_ALIGN, 0);
    assert_eq!(layout.index_offset, 32);
    assert_eq!(layout.total, 32 + 4 * 4);
}

#[test]
fn the_length_rules_are_checked_in_order() {
    // A zero stride is reported even when everything else is wrong too.
    assert!(matches!(
        layout_for(0, 0, 0),
        Err(TargetError::Creation { call: "create_mesh(zero vertex stride)", code: 0 })
    ));
    // An empty stream is reported before the missing indices.
    assert!(matches!(
        layout_for(0, 4, 0),
        Err(TargetError::Creation { call: "create_mesh(no vertices)", code: 0 })
    ));
}
