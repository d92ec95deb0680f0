//! The catalog: for every shape its layouts, its color and its spawn offset.
//!
//! A catalog is built once, from a table of entries or from the built-in
//! table, and is only read afterwards.

use bevy::utils::HashMap;
use vstd::pervasive::unreached;
use vstd::prelude::*;
use crate::pieces::{Blocks, Color, PieceData, PieceType};

verus! {

/// Why a table of entries is no catalog.
#[derive(Clone, Copy, Debug, PartialEq, Eq, Structural)]
pub enum CatalogError {
    /// The table has no entry for this shape.
    Missing(PieceType),
    /// The table has more than one entry for this shape.
    Duplicate(PieceType),
    /// In this rotation state of this shape two blocks share a cell.
    Malformed { typ: PieceType, rotation: usize },
}

/// Whether entry `i` of the table is one for `typ`.
pub open spec fn is_entry(entries: Seq<(PieceType, PieceData)>, typ: PieceType, i: int) -> bool {
    0 <= i < entries.len() && entries[i].0 == typ
}

/// The table has no entry for `typ`.
pub open spec fn missing(entries: Seq<(PieceType, PieceData)>, typ: PieceType) -> bool {
    forall|i: int| !is_entry(entries, typ, i)
}

/// The table has two entries for `typ`.
pub open spec fn duplicated(entries: Seq<(PieceType, PieceData)>, typ: PieceType) -> bool {
    exists|i: int, j: int| i < j && is_entry(entries, typ, i) && is_entry(entries, typ, j)
}

/// The data of an entry for `typ`.
pub open spec fn entry_of(entries: Seq<(PieceType, PieceData)>, typ: PieceType) -> PieceData {
    entries[choose|i: int| is_entry(entries, typ, i)].1
}

/// What is wrong with the table as far as `typ` goes, if anything.
pub open spec fn problem(entries: Seq<(PieceType, PieceData)>, typ: PieceType) -> Option<
    CatalogError,
> {
    if missing(entries, typ) {
        Some(CatalogError::Missing(typ))
    } else if duplicated(entries, typ) {
        Some(CatalogError::Duplicate(typ))
    } else {
        match entry_of(entries, typ).first_repeated() {
            Some(r) => Some(CatalogError::Malformed { typ, rotation: r as usize }),
            None => None,
        }
    }
}

/// The one entry of the table for `typ`, checked.
fn lookup(entries: &Vec<(PieceType, PieceData)>, typ: PieceType) -> (r: Result<
    PieceData,
    CatalogError,
>)
    ensures
        match r {
            Ok(d) => problem(entries@, typ) is None && d == entry_of(entries@, typ) && d.wf(),
            Err(e) => problem(entries@, typ) == Some(e),
        },
{
    let mut found: Option<usize> = None;
    let mut i: usize = 0;
    while i < entries.len()
        invariant
            i <= entries.len(),
            match found {
                None => forall|k: int| 0 <= k < i ==> !is_entry(entries@, typ, k),
                Some(f) => f < i && is_entry(entries@, typ, f as int) && forall|k: int|
                    0 <= k < i && k != f ==> !is_entry(entries@, typ, k),
            },
        decreases entries.len() - i,
    {
        if entries[i].0 == typ {
            if let Some(f) = found {
                assert(is_entry(entries@, typ, f as int) && is_entry(entries@, typ, i as int));
                return Err(CatalogError::Duplicate(typ));
            }
            found = Some(i);
        }
        i += 1;
    }
    match found {
        None => Err(CatalogError::Missing(typ)),
        Some(f) => {
            let d = entries[f].1;
            proof {
                assert(is_entry(entries@, typ, f as int));
                let c = choose|i: int| is_entry(entries@, typ, i);
                assert(c == f);
            }
            match d.find_repeated() {
                Some(rotation) => Err(CatalogError::Malformed { typ, rotation }),
                None => Ok(d),
            }
        },
    }
}

/// The built-in table: the seven tetrominoes, each in its four rotation
/// states, clockwise from the spawn state, with rows counted upwards.
pub open spec fn standard_data(typ: PieceType) -> PieceData {
    match typ {
        PieceType::I => PieceData {
            layouts: [
                [(-1i8, 0i8), (0i8, 0i8), (1i8, 0i8), (2i8, 0i8)],
                [(1i8, 1i8), (1i8, 0i8), (1i8, -1i8), (1i8, -2i8)],
                [(-1i8, -1i8), (0i8, -1i8), (1i8, -1i8), (2i8, -1i8)],
                [(0i8, 1i8), (0i8, 0i8), (0i8, -1i8), (0i8, -2i8)],
            ],
            color: Color { red: 0u8, green: 255u8, blue: 255u8, alpha: 255u8 },
            spawn_offset: (0i8, 0i8),
        },
        PieceType::O => PieceData {
            layouts: [
                [(0i8, 0i8), (1i8, 0i8), (0i8, -1i8), (1i8, -1i8)],
                [(0i8, 0i8), (1i8, 0i8), (0i8, -1i8), (1i8, -1i8)],
                [(0i8, 0i8), (1i8, 0i8), (0i8, -1i8), (1i8, -1i8)],
                [(0i8, 0i8), (1i8, 0i8), (0i8, -1i8), (1i8, -1i8)],
            ],
            color: Color { red: 255u8, green: 255u8, blue: 0u8, alpha: 255u8 },
            spawn_offset: (0i8, 0i8),
        },
        PieceType::T => PieceData {
            layouts: [
                [(-1i8, 0i8), (0i8, 0i8), (1i8, 0i8), (0i8, 1i8)],
                [(0i8, 1i8), (0i8, 0i8), (0i8, -1i8), (1i8, 0i8)],
                [(1i8, 0i8), (0i8, 0i8), (-1i8, 0i8), (0i8, -1i8)],
                [(0i8, -1i8), (0i8, 0i8), (0i8, 1i8), (-1i8, 0i8)],
            ],
            color: Color { red: 128u8, green: 0u8, blue: 128u8, alpha: 255u8 },
            spawn_offset: (0i8, 0i8),
        },
        PieceType::S => PieceData {
            layouts: [
                [(-1i8, 0i8), (0i8, 0i8), (0i8, 1i8), (1i8, 1i8)],
                [(0i8, 1i8), (0i8, 0i8), (1i8, 0i8), (1i8, -1i8)],
                [(1i8, 0i8), (0i8, 0i8), (0i8, -1i8), (-1i8, -1i8)],
                [(0i8, -1i8), (0i8, 0i8), (-1i8, 0i8), (-1i8, 1i8)],
            ],
            color: Color { red: 0u8, green: 255u8, blue: 0u8, alpha: 255u8 },
            spawn_offset: (0i8, 0i8),
        },
        PieceType::Z => PieceData {
            layouts: [
                [(-1i8, 1i8), (0i8, 1i8), (0i8, 0i8), (1i8, 0i8)],
                [(1i8, 1i8), (1i8, 0i8), (0i8, 0i8), (0i8, -1i8)],
                [(1i8, -1i8), (0i8, -1i8), (0i8, 0i8), (-1i8, 0i8)],
                [(-1i8, -1i8), (-1i8, 0i8), (0i8, 0i8), (0i8, 1i8)],
            ],
            color: Color { red: 255u8, green: 0u8, blue: 0u8, alpha: 255u8 },
            spawn_offset: (0i8, 0i8),
        },
        PieceType::J => PieceData {
            layouts: [
                [(-1i8, 1i8), (-1i8, 0i8), (0i8, 0i8), (1i8, 0i8)],
                [(1i8, 1i8), (0i8, 1i8), (0i8, 0i8), (0i8, -1i8)],
                [(1i8, -1i8), (1i8, 0i8), (0i8, 0i8), (-1i8, 0i8)],
                [(-1i8, -1i8), (0i8, -1i8), (0i8, 0i8), (0i8, 1i8)],
            ],
            color: Color { red: 0u8, green: 0u8, blue: 255u8, alpha: 255u8 },
            spawn_offset: (0i8, 0i8),
        },
        PieceType::L => PieceData {
            layouts: [
                [(1i8, 1i8), (-1i8, 0i8), (0i8, 0i8), (1i8, 0i8)],
                [(1i8, -1i8), (0i8, 1i8), (0i8, 0i8), (0i8, -1i8)],
                [(-1i8, -1i8), (1i8, 0i8), (0i8, 0i8), (-1i8, 0i8)],
                [(-1i8, 1i8), (0i8, -1i8), (0i8, 0i8), (0i8, 1i8)],
            ],
            color: Color { red: 255u8, green: 165u8, blue: 0u8, alpha: 255u8 },
            spawn_offset: (0i8, 0i8),
        },
    }
}

/// Four blocks that differ pairwise lie on four different cells.
proof fn lemma_distinct(d: PieceData, rotation: int)
    requires
        0 <= rotation < 4,
        d.layouts[rotation][0] != d.layouts[rotation][1],
        d.layouts[rotation][0] != d.layouts[rotation][2],
        d.layouts[rotation][0] != d.layouts[rotation][3],
        d.layouts[rotation][1] != d.layouts[rotation][2],
        d.layouts[rotation][1] != d.layouts[rotation][3],
        d.layouts[rotation][2] != d.layouts[rotation][3],
    ensures
        d.distinct_at(rotation),
{
    assert forall|i: int, j: int| 0 <= i < j < 4 implies d.layouts[rotation][i]
        != d.layouts[rotation][j] by {
        assert(i == 0 || i == 1 || i == 2);
        assert(j == 1 || j == 2 || j == 3);
    }
}

/// Every rotation state of the built-in table occupies four different cells.
pub proof fn lemma_standard_data_wf(typ: PieceType)
    ensures
        standard_data(typ).wf(),
{
    let d = standard_data(typ);
    lemma_distinct(d, 0);
    lemma_distinct(d, 1);
    lemma_distinct(d, 2);
    lemma_distinct(d, 3);
}

/// The table behind a catalog: what is known of each shape that has an
/// entry, under the number of the shape. It is kept in the engine's hash map,
/// which Verus cannot look into; what is said of it rests on the contracts of
/// [`empty_table`], [`insert_piece`] and [`get_piece`].
#[verifier::external_body]
#[derive(Debug)]
pub struct PiecesData {
    table: HashMap<usize, PieceData>,
}

/// What a table holds: the data of each shape number that has an entry.
pub uninterp spec fn pieces_of(data: PiecesData) -> Map<usize, PieceData>;

/// `HashMap::default` of hashbrown, under the engine's alias: a map without
/// entries.
#[verifier::external_body]
fn empty_table() -> (empty: PiecesData)
    ensures
        pieces_of(empty).dom() == Set::<usize>::empty(),
{
    PiecesData { table: HashMap::default() }
}

/// `HashMap::insert` of hashbrown: afterwards the map holds `piece` under
/// `key` and is otherwise as before; what it held under `key` is returned.
#[verifier::external_body]
fn insert_piece(data: &mut PiecesData, key: usize, piece: PieceData) -> (previous: Option<
    PieceData,
>)
    ensures
        pieces_of(*final(data)) == pieces_of(*old(data)).insert(key, piece),
        previous == (if pieces_of(*old(data)).dom().contains(key) {
            Some(pieces_of(*old(data))[key])
        } else {
            None
        }),
{
    data.table.insert(key, piece)
}

/// `HashMap::get` of hashbrown: what the map holds under `key`, if it holds
/// anything there.
#[verifier::external_body]
fn get_piece(data: &PiecesData, key: usize) -> (piece: Option<&PieceData>)
    ensures
        piece is Some <==> pieces_of(*data).dom().contains(key),
        piece matches Some(p) ==> *p == pieces_of(*data)[key],
{
    data.table.get(&key)
}

/// For every shape its layouts, its color and its spawn offset.
#[derive(Debug)]
pub struct PieceCatalog {
    table: PiecesData,
}

impl PieceCatalog {
    /// What the catalog holds for `typ`.
    pub closed spec fn data(&self, typ: PieceType) -> PieceData {
        pieces_of(self.table)[typ.spec_index() as usize]
    }

    /// The catalog has an entry for each of the seven shapes.
    pub closed spec fn complete(&self) -> bool {
        forall|key: usize| key < 7 ==> pieces_of(self.table).dom().contains(key)
    }

    /// No shape is missing, and every rotation state of every shape occupies
    /// four different cells.
    pub open spec fn wf(&self) -> bool {
        &&& self.complete()
        &&& forall|typ: PieceType| (#[trigger] self.data(typ)).wf()
    }

    /// The catalog with these seven entries.
    fn from_pieces(
        i: PieceData,
        o: PieceData,
        t: PieceData,
        s: PieceData,
        z: PieceData,
        j: PieceData,
        l: PieceData,
    ) -> (catalog: PieceCatalog)
        ensures
            catalog.complete(),
            catalog.data(PieceType::I) == i,
            catalog.data(PieceType::O) == o,
            catalog.data(PieceType::T) == t,
            catalog.data(PieceType::S) == s,
            catalog.data(PieceType::Z) == z,
            catalog.data(PieceType::J) == j,
            catalog.data(PieceType::L) == l,
    {
        let mut table = empty_table();
        insert_piece(&mut table, PieceType::I.index(), i);
        insert_piece(&mut table, PieceType::O.index(), o);
        insert_piece(&mut table, PieceType::T.index(), t);
        insert_piece(&mut table, PieceType::S.index(), s);
        insert_piece(&mut table, PieceType::Z.index(), z);
        insert_piece(&mut table, PieceType::J.index(), j);
        insert_piece(&mut table, PieceType::L.index(), l);
        PieceCatalog { table }
    }

    /// The catalog that a table of entries describes. The table must hold
    /// exactly one entry for each of the seven shapes, and no layout may put
    /// two blocks on one cell. Of several faults the one of the earliest shape
    /// in the order I, O, T, S, Z, J, L is reported.
    pub fn new(entries: &Vec<(PieceType, PieceData)>) -> (r: Result<PieceCatalog, CatalogError>)
        ensures
            match r {
                Ok(c) => c.wf() && forall|typ: PieceType|
                    problem(entries@, typ) is None && c.data(typ) == #[trigger] entry_of(
                        entries@,
                        typ,
                    ),
                Err(e) => exists|typ: PieceType|
                    #[trigger] problem(entries@, typ) == Some(e) && forall|other: PieceType|
                        other.spec_index() < typ.spec_index() ==> #[trigger] problem(
                            entries@,
                            other,
                        ) is None,
            },
    {
        let i = match lookup(entries, PieceType::I) {
            Ok(d) => d,
            Err(e) => {
                return Err(e);
            },
        };
        let o = match lookup(entries, PieceType::O) {
            Ok(d) => d,
            Err(e) => {
                return Err(e);
            },
        };
        let t = match lookup(entries, PieceType::T) {
            Ok(d) => d,
            Err(e) => {
                return Err(e);
            },
        };
        let s = match lookup(entries, PieceType::S) {
            Ok(d) => d,
            Err(e) => {
                return Err(e);
            },
        };
        let z = match lookup(entries, PieceType::Z) {
            Ok(d) => d,
            Err(e) => {
                return Err(e);
            },
        };
        let j = match lookup(entries, PieceType::J) {
            Ok(d) => d,
            Err(e) => {
                return Err(e);
            },
        };
        let l = match lookup(entries, PieceType::L) {
            Ok(d) => d,
            Err(e) => {
                return Err(e);
            },
        };
        let catalog = Self::from_pieces(i, o, t, s, z, j, l);
        proof {
            assert forall|typ: PieceType|
                problem(entries@, typ) is None && catalog.data(typ) == #[trigger] entry_of(
                    entries@,
                    typ,
                ) && catalog.data(typ).wf() by {
                match typ {
                    PieceType::I => {},
                    PieceType::O => {},
                    PieceType::T => {},
                    PieceType::S => {},
                    PieceType::Z => {},
                    PieceType::J => {},
                    PieceType::L => {},
                }
            }
        }
        Ok(catalog)
    }

    /// The catalog of the built-in table.
    pub fn standard() -> (c: PieceCatalog)
        ensures
            c.wf(),
            forall|typ: PieceType| #[trigger] c.data(typ) == standard_data(typ),
    {
        let i = PieceData {
            layouts: [
                [(-1, 0), (0, 0), (1, 0), (2, 0)],
                [(1, 1), (1, 0), (1, -1), (1, -2)],
                [(-1, -1), (0, -1), (1, -1), (2, -1)],
                [(0, 1), (0, 0), (0, -1), (0, -2)],
            ],
            color: Color { red: 0, green: 255, blue: 255, alpha: 255 },
            spawn_offset: (0, 0),
        };
        let o = PieceData {
            layouts: [
                [(0, 0), (1, 0), (0, -1), (1, -1)],
                [(0, 0), (1, 0), (0, -1), (1, -1)],
                [(0, 0), (1, 0), (0, -1), (1, -1)],
                [(0, 0), (1, 0), (0, -1), (1, -1)],
            ],
            color: Color { red: 255, green: 255, blue: 0, alpha: 255 },
            spawn_offset: (0, 0),
        };
        let t = PieceData {
            layouts: [
                [(-1, 0), (0, 0), (1, 0), (0, 1)],
                [(0, 1), (0, 0), (0, -1), (1, 0)],
                [(1, 0), (0, 0), (-1, 0), (0, -1)],
                [(0, -1), (0, 0), (0, 1), (-1, 0)],
            ],
            color: Color { red: 128, green: 0, blue: 128, alpha: 255 },
            spawn_offset: (0, 0),
        };
        let s = PieceData {
            layouts: [
                [(-1, 0), (0, 0), (0, 1), (1, 1)],
                [(0, 1), (0, 0), (1, 0), (1, -1)],
                [(1, 0), (0, 0), (0, -1), (-1, -1)],
                [(0, -1), (0, 0), (-1, 0), (-1, 1)],
            ],
            color: Color { red: 0, green: 255, blue: 0, alpha: 255 },
            spawn_offset: (0, 0),
        };
        let z = PieceData {
            layouts: [
                [(-1, 1), (0, 1), (0, 0), (1, 0)],
                [(1, 1), (1, 0), (0, 0), (0, -1)],
                [(1, -1), (0, -1), (0, 0), (-1, 0)],
                [(-1, -1), (-1, 0), (0, 0), (0, 1)],
            ],
            color: Color { red: 255, green: 0, blue: 0, alpha: 255 },
            spawn_offset: (0, 0),
        };
        let j = PieceData {
            layouts: [
                [(-1, 1), (-1, 0), (0, 0), (1, 0)],
                [(1, 1), (0, 1), (0, 0), (0, -1)],
                [(1, -1), (1, 0), (0, 0), (-1, 0)],
                [(-1, -1), (0, -1), (0, 0), (0, 1)],
            ],
            color: Color { red: 0, green: 0, blue: 255, alpha: 255 },
            spawn_offset: (0, 0),
        };
        let l = PieceData {
            layouts: [
                [(1, 1), (-1, 0), (0, 0), (1, 0)],
                [(1, -1), (0, 1), (0, 0), (0, -1)],
                [(-1, -1), (1, 0), (0, 0), (-1, 0)],
                [(-1, 1), (0, -1), (0, 0), (0, 1)],
            ],
            color: Color { red: 255, green: 165, blue: 0, alpha: 255 },
            spawn_offset: (0, 0),
        };
        let c = Self::from_pieces(i, o, t, s, z, j, l);
        proof {
            assert forall|typ: PieceType| #[trigger] c.data(typ) == standard_data(typ) by {
                match typ {
                    PieceType::I => {},
                    PieceType::O => {},
                    PieceType::T => {},
                    PieceType::S => {},
                    PieceType::Z => {},
                    PieceType::J => {},
                    PieceType::L => {},
                }
            }
            assert forall|typ: PieceType| (#[trigger] c.data(typ)).wf() by {
                lemma_standard_data_wf(typ);
            }
        }
        c
    }

    /// Everything the catalog holds for `typ`.
    pub fn get(&self, typ: PieceType) -> (d: &PieceData)
        requires
            self.wf(),
        ensures
            *d == self.data(typ),
    {
        match get_piece(&self.table, typ.index()) {
            Some(d) => d,
            None => unreached(),
        }
    }

    /// The four rotation states of `typ`.
    pub fn layouts(&self, typ: PieceType) -> (l: [Blocks; 4])
        requires
            self.wf(),
        ensures
            l == self.data(typ).layouts,
    {
        self.get(typ).layouts
    }

    /// The fill color of `typ`.
    pub fn color(&self, typ: PieceType) -> (c: Color)
        requires
            self.wf(),
        ensures
            c == self.data(typ).color,
    {
        self.get(typ).color
    }

    /// The offset that `typ` adds to every cell of every layout.
    pub fn spawn_offset(&self, typ: PieceType) -> (o: (i8, i8))
        requires
            self.wf(),
        ensures
            o == self.data(typ).spawn_offset,
    {
        self.get(typ).spawn_offset
    }
}

} // verus!
