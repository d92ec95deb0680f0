use retris::catalog::{CatalogError, PieceCatalog};
use retris::pieces::{Blocks, Color, PieceData, PieceType};

const WHITE: Color = Color { red: 255, green: 255, blue: 255, alpha: 255 };

fn all_types() -> [PieceType; 7] {
    [
        PieceType::I,
        PieceType::O,
        PieceType::T,
        PieceType::S,
        PieceType::Z,
        PieceType::J,
        PieceType::L,
    ]
}

fn square() -> PieceData {
    let layout: Blocks = [(0, 0), (1, 0), (0, 1), (1, 1)];
    PieceData { layouts: [layout, layout, layout, layout], color: WHITE, spawn_offset: (0, 0) }
}

fn full_table() -> Vec<(PieceType, PieceData)> {
    all_types().iter().map(|t| (*t, square())).collect()
}

#[test]
fn piece_types_are_numbered_in_order() {
    for (i, t) in all_types().iter().enumerate() {
        assert_eq!(t.index(), i);
        assert_eq!(PieceType::from_index(i), Some(*t));
    }
    assert_eq!(PieceType::from_index(7), None);
    assert_eq!(PieceType::from_index(usize::MAX), None);
}

#[test]
fn standard_catalog_holds_the_seven_tetrominoes() {
    let catalog = PieceCatalog::standard();
    assert_eq!(
        catalog.layouts(PieceType::O),
        [[(0, 0), (1, 0), (0, -1), (1, -1)]; 4]
    );
    assert_eq!(
        catalog.layouts(PieceType::I),
        [
            [(-1, 0), (0, 0), (1, 0), (2, 0)],
            [(1, 1), (1, 0), (1, -1), (1, -2)],
            [(-1, -1), (0, -1), (1, -1), (2, -1)],
            [(0, 1), (0, 0), (0, -1), (0, -2)],
        ]
    );
    assert_eq!(
        catalog.layouts(PieceType::T),
        [
            [(-1, 0), (0, 0), (1, 0), (0, 1)],
            [(0, 1), (0, 0), (0, -1), (1, 0)],
            [(1, 0), (0, 0), (-1, 0), (0, -1)],
            [(0, -1), (0, 0), (0, 1), (-1, 0)],
        ]
    );
    assert_eq!(catalog.layouts(PieceType::L)[0], [(1, 1), (-1, 0), (0, 0), (1, 0)]);
    assert_eq!(catalog.layouts(PieceType::J)[0], [(-1, 1), (-1, 0), (0, 0), (1, 0)]);
    assert_eq!(catalog.layouts(PieceType::S)[0], [(-1, 0), (0, 0), (0, 1), (1, 1)]);
    assert_eq!(catalog.layouts(PieceType::Z)[0], [(-1, 1), (0, 1), (0, 0), (1, 0)]);
    assert_eq!(catalog.color(PieceType::I), Color { red: 0, green: 255, blue: 255, alpha: 255 });
    assert_eq!(catalog.color(PieceType::L), Color { red: 255, green: 165, blue: 0, alpha: 255 });
    for t in all_types() {
        assert_eq!(catalog.spawn_offset(t), (0, 0));
        assert_eq!(catalog.get(t).layouts, catalog.layouts(t));
    }
}

#[test]
fn every_standard_layout_has_four_distinct_cells() {
    let catalog = PieceCatalog::standard();
    for t in all_types() {
        let data = catalog.get(t);
        assert_eq!(data.find_repeated(), None);
        for rotation in 0..4 {
            assert!(data.layout_is_distinct(rotation));
            let layout = data.layouts[rotation];
            for i in 0..4 {
                for j in (i + 1)..4 {
                    assert_ne!(layout[i], layout[j], "{:?} rotation {}", t, rotation);
                }
            }
        }
    }
}

#[test]
fn standard_rotations_turn_clockwise() {
    // Each state of T, S, Z, J and L is the one before it turned by a quarter.
    let catalog = PieceCatalog::standard();
    for t in [PieceType::T, PieceType::S, PieceType::Z, PieceType::J, PieceType::L] {
        let layouts = catalog.layouts(t);
        for rotation in 0..4 {
            for i in 0..4 {
                let (x, y) = layouts[rotation][i];
                assert_eq!(layouts[(rotation + 1) % 4][i], (y, -x));
            }
        }
    }
}

#[test]
fn catalog_from_a_complete_table() {
    let mut table = full_table();
    let mut tee = square();
    tee.layouts[2] = [(5, 5), (6, 5), (7, 5), (6, 6)];
    tee.color = Color { red: 1, green: 2, blue: 3, alpha: 4 };
    tee.spawn_offset = (-1, 2);
    table[2] = (PieceType::T, tee);
    table.reverse();
    let catalog = PieceCatalog::new(&table).unwrap();
    assert_eq!(catalog.layouts(PieceType::T)[2], [(5, 5), (6, 5), (7, 5), (6, 6)]);
    assert_eq!(catalog.layouts(PieceType::T)[0], [(0, 0), (1, 0), (0, 1), (1, 1)]);
    assert_eq!(catalog.color(PieceType::T), Color { red: 1, green: 2, blue: 3, alpha: 4 });
    assert_eq!(catalog.spawn_offset(PieceType::T), (-1, 2));
    assert_eq!(catalog.color(PieceType::I), WHITE);
    assert_eq!(catalog.spawn_offset(PieceType::L), (0, 0));
}

#[test]
fn catalog_rejects_an_empty_table() {
    assert_eq!(PieceCatalog::new(&Vec::new()).unwrap_err(), CatalogError::Missing(PieceType::I));
}

#[test]
fn catalog_reports_the_missing_shape() {
    for (i, t) in all_types().iter().enumerate() {
        let mut table = full_table();
        table.remove(i);
        assert_eq!(PieceCatalog::new(&table).unwrap_err(), CatalogError::Missing(*t));
    }
}

#[test]
fn catalog_reports_a_shape_that_is_listed_twice() {
    let mut table = full_table();
    table.push((PieceType::S, square()));
    assert_eq!(PieceCatalog::new(&table).unwrap_err(), CatalogError::Duplicate(PieceType::S));
}

#[test]
fn catalog_reports_a_layout_with_a_repeated_cell() {
    let mut table = full_table();
    let mut bad = square();
    bad.layouts[3] = [(0, 0), (1, 0), (0, 1), (1, 0)];
    table[5] = (PieceType::J, bad);
    assert_eq!(
        PieceCatalog::new(&table).unwrap_err(),
        CatalogError::Malformed { typ: PieceType::J, rotation: 3 }
    );
}

#[test]
fn catalog_reports_the_first_bad_rotation() {
    let mut bad = square();
    bad.layouts[1] = [(2, 2), (2, 2), (0, 1), (1, 0)];
    bad.layouts[2] = [(0, 0), (0, 0), (0, 0), (0, 0)];
    assert_eq!(bad.find_repeated(), Some(1));
    assert!(bad.layout_is_distinct(0));
    assert!(!bad.layout_is_distinct(1));
    assert!(!bad.layout_is_distinct(2));
    assert!(bad.layout_is_distinct(3));
    let mut table = full_table();
    table[0] = (PieceType::I, bad);
    assert_eq!(
        PieceCatalog::new(&table).unwrap_err(),
        CatalogError::Malformed { typ: PieceType::I, rotation: 1 }
    );
}

#[test]
fn catalog_reports_the_fault_of_the_earliest_shape() {
    // O is listed twice, S is missing, L is malformed: O comes first.
    let mut table = full_table();
    let mut bad = square();
    bad.layouts[0] = [(0, 0), (0, 0), (0, 1), (1, 1)];
    table[6] = (PieceType::L, bad);
    table[3] = (PieceType::O, square());
    assert_eq!(PieceCatalog::new(&table).unwrap_err(), CatalogError::Duplicate(PieceType::O));
    // With O mended, the missing S is next.
    table.remove(3);
    assert_eq!(PieceCatalog::new(&table).unwrap_err(), CatalogError::Missing(PieceType::S));
    // With S there, the malformed L is left.
    table.push((PieceType::S, square()));
    assert_eq!(
        PieceCatalog::new(&table).unwrap_err(),
        CatalogError::Malformed { typ: PieceType::L, rotation: 0 }
    );
}

#[test]
fn equal_offsets_in_different_layouts_are_no_fault() {
    let mut table = full_table();
    let mut data = square();
    data.layouts[1] = data.layouts[0];
    table[4] = (PieceType::Z, data);
    assert!(PieceCatalog::new(&table).is_ok());
}
