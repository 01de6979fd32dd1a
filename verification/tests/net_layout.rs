use cloth_net::dispatch::{net_workgroup_count, workgroup_count, WORKGROUP_SIZE};
use cloth_net::grid::{cell_of_index, instance_count, particle_cells, GridCell, NUM_INSTANCES_PER_ROW};
use cloth_net::springs::{build_springs, SpringSet};

/// The spring lists computed directly: one pass over the
/// particles, with the partner tests spelled out for each offset.
fn reference_springs(n: u32) -> (Vec<[i32; 2]>, Vec<[i32; 2]>, Vec<[i32; 2]>) {
    let count = (n * n) as i32;
    let sentinel = count + 1;
    let mut structural = Vec::new();
    let mut shear = Vec::new();
    let mut bend = Vec::new();
    for index in 0..count {
        let row = index as u32 / n;
        let col = index as u32 % n;
        let n = n as i32;
        let (row, col) = (row as i32, col as i32);
        for offset in [-1, 1] {
            if col + offset >= 0 && col + offset < n {
                structural.push([index, index + offset]);
            } else {
                structural.push([index, sentinel]);
            }
            if row + offset >= 0 && row + offset < n {
                structural.push([index, index + offset * n]);
            } else {
                structural.push([index, sentinel]);
            }
        }
        for offset1 in [-1, 1] {
            for offset2 in [-1, 1] {
                if col + offset1 >= 0 && col + offset1 < n && row + offset2 >= 0 && row + offset2 < n {
                    shear.push([index, index + offset2 * n + offset1]);
                } else {
                    shear.push([index, sentinel]);
                }
            }
        }
        for offset in [-2, 2] {
            if col + offset >= 0 && col + offset < n {
                bend.push([index, index + offset]);
            } else {
                bend.push([index, sentinel]);
            }
            if row + offset >= 0 && row + offset < n {
                bend.push([index, index + offset * n]);
            } else {
                bend.push([index, sentinel]);
            }
        }
    }
    (structural, shear, bend)
}

#[test]
fn instance_count_squares_the_side() {
    assert_eq!(instance_count(NUM_INSTANCES_PER_ROW), 961);
    assert_eq!(instance_count(0), 0);
    assert_eq!(instance_count(1), 1);
    assert_eq!(instance_count(7), 49);
    assert_eq!(instance_count(65535), 4_294_836_225);
}

#[test]
fn cells_follow_row_major_order() {
    let cells = particle_cells(NUM_INSTANCES_PER_ROW);
    assert_eq!(cells.len(), 961);
    assert_eq!(cells[0], GridCell { col: 0, row: 0 });
    assert_eq!(cells[30], GridCell { col: 30, row: 0 });
    assert_eq!(cells[31], GridCell { col: 0, row: 1 });
    assert_eq!(cells[40], GridCell { col: 9, row: 1 });
    assert_eq!(cells[960], GridCell { col: 30, row: 30 });
    for (i, cell) in cells.iter().enumerate() {
        assert_eq!(cell.row * 31 + cell.col, i as u32);
    }
    assert_eq!(cell_of_index(5, 17), GridCell { col: 2, row: 3 });
    assert!(particle_cells(0).is_empty());
}

#[test]
fn springs_match_the_reference_pass() {
    for n in [0u32, 1, 2, 3, 4, 5, 31] {
        let SpringSet { structural, shear, bend } = build_springs(n);
        let (s, h, b) = reference_springs(n);
        assert_eq!(structural, s);
        assert_eq!(shear, h);
        assert_eq!(bend, b);
    }
}

#[test]
fn corner_particle_springs() {
    let set = build_springs(NUM_INSTANCES_PER_ROW);
    assert_eq!(set.structural.len(), 4 * 961);
    assert_eq!(set.shear.len(), 4 * 961);
    assert_eq!(set.bend.len(), 4 * 961);
    assert_eq!(&set.structural[0..4], &[[0, 962], [0, 962], [0, 1], [0, 31]]);
    assert_eq!(&set.shear[0..4], &[[0, 962], [0, 962], [0, 962], [0, 32]]);
    assert_eq!(&set.bend[0..4], &[[0, 962], [0, 962], [0, 2], [0, 62]]);
    // The last particle of the first row has no right-hand neighbour: its
    // springs do not wrap onto the next row.
    let s = 4 * 30;
    assert_eq!(&set.structural[s..s + 4], &[[30, 29], [30, 962], [30, 962], [30, 61]]);
    assert_eq!(&set.shear[s..s + 4], &[[30, 962], [30, 60], [30, 962], [30, 962]]);
    assert_eq!(&set.bend[s..s + 4], &[[30, 28], [30, 962], [30, 962], [30, 92]]);
}

#[test]
fn every_spring_ends_on_the_grid_or_the_sentinel() {
    let n = 6u32;
    let count = (n * n) as i32;
    let set = build_springs(n);
    for list in [&set.structural, &set.shear, &set.bend] {
        for (s, spring) in list.iter().enumerate() {
            assert_eq!(spring[0], (s / 4) as i32);
            assert!(spring[1] == count + 1 || (0 <= spring[1] && spring[1] < count));
        }
    }
}

#[test]
fn springs_come_in_opposite_pairs() {
    let n = 5u32;
    let set = build_springs(n);
    for list in [&set.structural, &set.shear, &set.bend] {
        for spring in list.iter() {
            if spring[1] != (n * n) as i32 + 1 {
                assert!(list.contains(&[spring[1], spring[0]]));
            }
        }
    }
}

#[test]
fn neighbours_sit_at_their_offsets() {
    let n = 4i32;
    let set = build_springs(n as u32);
    let offsets = [(-1, 0), (0, -1), (1, 0), (0, 1)];
    for (s, spring) in set.structural.iter().enumerate() {
        if spring[1] != n * n + 1 {
            let (dc, dr) = offsets[s % 4];
            assert_eq!(spring[1] % n, spring[0] % n + dc);
            assert_eq!(spring[1] / n, spring[0] / n + dr);
        }
    }
}

#[test]
fn workgroups_cover_every_particle() {
    assert_eq!(WORKGROUP_SIZE, 64);
    assert_eq!(workgroup_count(961), 16);
    assert_eq!(workgroup_count(0), 0);
    assert_eq!(workgroup_count(1), 1);
    assert_eq!(workgroup_count(64), 1);
    assert_eq!(workgroup_count(65), 2);
    assert_eq!(workgroup_count(u32::MAX), 67_108_864);
    assert_eq!(net_workgroup_count(NUM_INSTANCES_PER_ROW), 16);
    assert_eq!(net_workgroup_count(8), 1);
    assert_eq!(net_workgroup_count(9), 2);
}
