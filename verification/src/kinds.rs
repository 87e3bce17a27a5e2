//! The kind-interning codec.
//!
//! A grid cell carries an optional kind, a string. Packing gives every
//! distinct kind the next free index, in the order in which the kinds first
//! occur, and writes one byte per cell: the index of the cell's kind, or 255
//! for a cell without one. A wall cell also carries an elevation byte, which
//! is written straight after its kind byte.

use vstd::prelude::*;
use vstd::seq_lib::seq_to_set_is_finite;
use vstd::set_lib::lemma_len_subset;
use crate::error::CodecError;
use crate::lookup::{lemma_slot_exists, lemma_slot_unique, names_view, slot, slot_of};

verus! {

/// The byte that stands for a cell without a kind.
pub const ABSENT: u8 = 255;

/// The most kinds that one table can hold.
pub const MAX_KINDS: usize = 255;

/// What a cell's label is, as a value.
pub open spec fn label_view(label: Option<String>) -> Option<Seq<char>> {
    match label {
        Some(name) => Some(name@),
        None => None,
    }
}

/// What a row of labels is, as values.
pub open spec fn labels_view(labels: Seq<Option<String>>) -> Seq<Option<Seq<char>>> {
    Seq::new(labels.len(), |i: int| label_view(labels[i]))
}

/// What a row of wall cells is, as values: elevation first, then the label.
pub open spec fn walls_view(walls: Seq<(u8, Option<String>)>) -> Seq<(u8, Option<Seq<char>>)> {
    Seq::new(walls.len(), |i: int| (walls[i].0, label_view(walls[i].1)))
}

/// The labels of a row of wall cells.
pub open spec fn wall_labels(walls: Seq<(u8, Option<Seq<char>>)>) -> Seq<Option<Seq<char>>> {
    Seq::new(walls.len(), |i: int| walls[i].1)
}

/// The table after a cell with `label` has been seen.
pub open spec fn interned(kinds: Seq<Seq<char>>, label: Option<Seq<char>>) -> Seq<Seq<char>> {
    match label {
        None => kinds,
        Some(name) => if slot(kinds, name) < kinds.len() {
            kinds
        } else {
            kinds.push(name)
        },
    }
}

/// The byte for a cell with `label`, given the table so far; an error where
/// the label would need an index above 254.
pub open spec fn entry_code(kinds: Seq<Seq<char>>, label: Option<Seq<char>>) -> Result<
    u8,
    CodecError,
> {
    match label {
        None => Ok(255u8),
        Some(name) => if slot(kinds, name) <= 254 {
            Ok(slot(kinds, name) as u8)
        } else {
            Err(CodecError::CapacityExceeded)
        },
    }
}

/// The distinct labels of `labels`, in the order in which they first occur.
pub open spec fn kind_table(labels: Seq<Option<Seq<char>>>) -> Seq<Seq<char>>
    decreases labels.len(),
{
    if labels.len() == 0 {
        Seq::empty()
    } else {
        interned(kind_table(labels.drop_last()), labels.last())
    }
}

/// The byte of one cell under a table: 255 without a label, else the label's
/// index.
pub open spec fn cell_code(kinds: Seq<Seq<char>>, label: Option<Seq<char>>) -> u8 {
    match label {
        None => 255u8,
        Some(name) => slot(kinds, name) as u8,
    }
}

/// One byte per cell: the cell's code under the table of the whole row.
pub open spec fn packed_kinds(labels: Seq<Option<Seq<char>>>) -> Seq<u8> {
    Seq::new(labels.len(), |i: int| cell_code(kind_table(labels), labels[i]))
}

/// Two bytes per wall cell: the code of its label, then its elevation.
pub open spec fn packed_walls(walls: Seq<(u8, Option<Seq<char>>)>) -> Seq<u8> {
    Seq::new(
        2 * walls.len(),
        |i: int|
            if i % 2 == 0 {
                cell_code(kind_table(wall_labels(walls)), walls[i / 2].1)
            } else {
                walls[i / 2].0
            },
    )
}

/// Whether a packed byte can be read under a table of `count` kinds.
pub open spec fn code_valid(count: nat, code: u8) -> bool {
    code == 255 || code < count
}

/// The label that a packed byte stands for.
pub open spec fn unpacked_cell(kinds: Seq<Seq<char>>, code: u8) -> Option<Seq<char>> {
    if code == 255 {
        None
    } else {
        Some(kinds[code as int])
    }
}

/// Whether every byte of `packed` can be read under `kinds`.
pub open spec fn kinds_decodable(kinds: Seq<Seq<char>>, packed: Seq<u8>) -> bool {
    forall|i: int| 0 <= i < packed.len() ==> code_valid(kinds.len(), #[trigger] packed[i])
}

/// The row of labels that `packed` stands for.
pub open spec fn unpacked_kinds(kinds: Seq<Seq<char>>, packed: Seq<u8>) -> Seq<Option<Seq<char>>> {
    Seq::new(packed.len(), |i: int| unpacked_cell(kinds, packed[i]))
}

/// Whether every kind byte of packed wall cells can be read under `kinds`.
pub open spec fn walls_decodable(kinds: Seq<Seq<char>>, packed: Seq<u8>) -> bool {
    forall|c: int| 0 <= c < packed.len() / 2 ==> code_valid(kinds.len(), #[trigger] packed[2 * c])
}

/// The row of wall cells that `packed` stands for.
pub open spec fn unpacked_walls(kinds: Seq<Seq<char>>, packed: Seq<u8>) -> Seq<
    (u8, Option<Seq<char>>),
> {
    Seq::new(
        (packed.len() / 2) as nat,
        |c: int| (packed[2 * c + 1], unpacked_cell(kinds, packed[2 * c])),
    )
}

/// What unpacking a terrain row gives.
pub open spec fn terrain_decoding(kinds: Seq<Seq<char>>, packed: Seq<u8>) -> Result<
    Seq<Option<Seq<char>>>,
    CodecError,
> {
    if kinds_decodable(kinds, packed) {
        Ok(unpacked_kinds(kinds, packed))
    } else {
        Err(CodecError::InvalidIndex)
    }
}

/// What unpacking a wall row gives. An odd length is reported before any
/// index is looked at.
pub open spec fn walls_decoding(kinds: Seq<Seq<char>>, packed: Seq<u8>) -> Result<
    Seq<(u8, Option<Seq<char>>)>,
    CodecError,
> {
    if packed.len() % 2 != 0 {
        Err(CodecError::MalformedLength)
    } else if walls_decodable(kinds, packed) {
        Ok(unpacked_walls(kinds, packed))
    } else {
        Err(CodecError::InvalidIndex)
    }
}

/// What packing a terrain row gives: the table and the bytes, or an error
/// where the row has more than 255 distinct labels.
pub open spec fn terrain_encoding(labels: Seq<Option<Seq<char>>>) -> Result<
    (Seq<Seq<char>>, Seq<u8>),
    CodecError,
> {
    if kind_table(labels).len() <= 255 {
        Ok((kind_table(labels), packed_kinds(labels)))
    } else {
        Err(CodecError::CapacityExceeded)
    }
}

/// What packing a wall row gives.
pub open spec fn walls_encoding(walls: Seq<(u8, Option<Seq<char>>)>) -> Result<
    (Seq<Seq<char>>, Seq<u8>),
    CodecError,
> {
    if kind_table(wall_labels(walls)).len() <= 255 {
        Ok((kind_table(wall_labels(walls)), packed_walls(walls)))
    } else {
        Err(CodecError::CapacityExceeded)
    }
}

/// A table that grows by interning keeps what it held, where it held it.
pub proof fn lemma_interned_extends(kinds: Seq<Seq<char>>, label: Option<Seq<char>>)
    ensures
        kinds.len() <= interned(kinds, label).len() <= kinds.len() + 1,
        forall|i: int| 0 <= i < kinds.len() ==> interned(kinds, label)[i] == kinds[i],
        kinds.no_duplicates() ==> interned(kinds, label).no_duplicates(),
        label matches Some(name) ==> {
            &&& slot(kinds, name) < interned(kinds, label).len()
            &&& interned(kinds, label)[slot(kinds, name)] == name
        },
{
    match label {
        None => {},
        Some(name) => {
            lemma_slot_exists(kinds, name);
        },
    }
}

/// A name keeps its slot when the table grows by interning.
pub proof fn lemma_slot_stable(kinds: Seq<Seq<char>>, label: Option<Seq<char>>, name: Seq<char>)
    requires
        slot(kinds, name) < kinds.len(),
    ensures
        slot(interned(kinds, label), name) == slot(kinds, name),
{
    lemma_slot_exists(kinds, name);
    lemma_interned_extends(kinds, label);
    lemma_slot_unique(interned(kinds, label), name, slot(kinds, name));
}

/// The table of a prefix is a prefix of the table, and a label of that
/// prefix has in the whole table the slot it had in the prefix's.
pub proof fn lemma_kind_table_prefix(labels: Seq<Option<Seq<char>>>, n: int)
    requires
        0 <= n <= labels.len(),
    ensures
        kind_table(labels.take(n)).len() <= kind_table(labels).len(),
        forall|i: int|
            0 <= i < kind_table(labels.take(n)).len() ==> kind_table(labels)[i] == kind_table(
                labels.take(n),
            )[i],
        forall|j: int|
            0 <= j < n ==> (#[trigger] labels[j] matches Some(name) ==> {
                &&& slot(kind_table(labels.take(n)), name) < kind_table(labels.take(n)).len()
                &&& slot(kind_table(labels), name) == slot(kind_table(labels.take(n)), name)
            }),
    decreases labels.len() - n,
{
    if n == labels.len() {
        assert(labels.take(n) =~= labels);
        lemma_kind_table_holds(labels);
    } else {
        let shorter = labels.take(n);
        let longer = labels.take(n + 1);
        assert(longer.drop_last() =~= shorter);
        assert(longer.last() == labels[n]);
        lemma_kind_table_prefix(labels, n + 1);
        lemma_interned_extends(kind_table(shorter), labels[n]);
        lemma_kind_table_holds(shorter);
        assert forall|j: int| 0 <= j < n implies (#[trigger] labels[j] matches Some(name) ==> {
            &&& slot(kind_table(shorter), name) < kind_table(shorter).len()
            &&& slot(kind_table(labels), name) == slot(kind_table(shorter), name)
        }) by {
            if let Some(name) = labels[j] {
                assert(shorter[j] == labels[j]);
                assert(longer[j] == labels[j]);
                lemma_slot_stable(kind_table(shorter), labels[n], name);
            }
        }
    }
}

/// Every label of a row has a slot inside the row's table.
pub proof fn lemma_kind_table_holds(labels: Seq<Option<Seq<char>>>)
    ensures
        forall|j: int|
            0 <= j < labels.len() ==> (#[trigger] labels[j] matches Some(name) ==> slot(
                kind_table(labels),
                name,
            ) < kind_table(labels).len()),
    decreases labels.len(),
{
    if labels.len() > 0 {
        let front = labels.drop_last();
        lemma_kind_table_holds(front);
        lemma_interned_extends(kind_table(front), labels.last());
        assert forall|j: int| 0 <= j < labels.len() implies (#[trigger] labels[j] matches Some(
            name,
        ) ==> slot(kind_table(labels), name) < kind_table(labels).len()) by {
            if let Some(name) = labels[j] {
                if j < labels.len() - 1 {
                    assert(front[j] == labels[j]);
                    lemma_slot_stable(kind_table(front), labels.last(), name);
                } else {
                    lemma_slot_exists(kind_table(front), name);
                    lemma_slot_unique(kind_table(labels), name, slot(kind_table(front), name));
                }
            }
        }
    }
}

/// The table of a row holds no kind twice, holds every label of the row, and
/// holds nothing else: its length is the number of distinct labels.
pub proof fn lemma_kind_table_distinct_labels(labels: Seq<Option<Seq<char>>>)
    ensures
        kind_table(labels).no_duplicates(),
        forall|name: Seq<char>|
            kind_table(labels).contains(name) <==> labels.contains(Some(name)),
    decreases labels.len(),
{
    if labels.len() > 0 {
        let front = labels.drop_last();
        let before = kind_table(front);
        let table = kind_table(labels);
        lemma_kind_table_distinct_labels(front);
        lemma_interned_extends(before, labels.last());
        assert forall|name: Seq<char>| table.contains(name) <==> labels.contains(
            Some(name),
        ) by {
            if table.contains(name) {
                let i = choose|i: int| 0 <= i < table.len() && table[i] == name;
                if i < before.len() {
                    assert(before[i] == name);
                    assert(before.contains(name));
                    let j = choose|j: int| 0 <= j < front.len() && front[j] == Some(name);
                    assert(labels[j] == Some(name));
                } else {
                    assert(labels[labels.len() - 1] == Some(name));
                }
            }
            if labels.contains(Some(name)) {
                let j = choose|j: int| 0 <= j < labels.len() && labels[j] == Some(name);
                lemma_kind_table_holds(labels);
                lemma_slot_exists(table, name);
                assert(table[slot(table, name)] == name);
            }
        }
    } else {
        assert forall|name: Seq<char>| kind_table(labels).contains(name) <==> labels.contains(
            Some(name),
        ) by {}
    }
}

/// `j` is the first place at which `name` stands in `labels`.
pub open spec fn is_first_occurrence(
    labels: Seq<Option<Seq<char>>>,
    name: Seq<char>,
    j: int,
) -> bool {
    &&& 0 <= j < labels.len()
    &&& labels[j] == Some(name)
    &&& forall|k: int| 0 <= k < j ==> labels[k] != Some(name)
}

/// The table lists the kinds in the order in which they first occur: of two
/// kinds of the table, the one with the lower index first occurs earlier in
/// the row.
pub proof fn lemma_kind_table_order(
    labels: Seq<Option<Seq<char>>>,
    a: int,
    b: int,
    first_a: int,
    first_b: int,
)
    requires
        0 <= a < b < kind_table(labels).len(),
        is_first_occurrence(labels, kind_table(labels)[a], first_a),
        is_first_occurrence(labels, kind_table(labels)[b], first_b),
    ensures
        first_a < first_b,
    decreases labels.len(),
{
    let front = labels.drop_last();
    let before = kind_table(front);
    let table = kind_table(labels);
    let name_a = table[a];
    let name_b = table[b];
    lemma_interned_extends(before, labels.last());
    lemma_kind_table_distinct_labels(front);
    assert(before[a] == name_a);
    assert(before.contains(name_a));
    let seen_a = choose|k: int| 0 <= k < front.len() && front[k] == Some(name_a);
    assert(labels[seen_a] == Some(name_a));
    assert(is_first_occurrence(front, name_a, first_a)) by {
        assert forall|k: int| 0 <= k < first_a implies front[k] != Some(name_a) by {
            assert(front[k] == labels[k]);
        }
    }
    if b < before.len() {
        assert(before[b] == name_b);
        assert(before.contains(name_b));
        let seen_b = choose|k: int| 0 <= k < front.len() && front[k] == Some(name_b);
        assert(labels[seen_b] == Some(name_b));
        assert(is_first_occurrence(front, name_b, first_b)) by {
            assert forall|k: int| 0 <= k < first_b implies front[k] != Some(name_b) by {
                assert(front[k] == labels[k]);
            }
        }
        lemma_kind_table_order(front, a, b, first_a, first_b);
    } else {
        lemma_slot_exists(before, name_b);
        assert(!before.contains(name_b));
        if first_b < front.len() {
            assert(front[first_b] == Some(name_b));
            assert(front.contains(Some(name_b)));
        }
    }
}

/// The kinds that occur in a row: what its cells are labelled with, each
/// kind once however often it occurs. A cell without a label adds nothing.
pub open spec fn kinds_in(labels: Seq<Option<Seq<char>>>) -> Set<Seq<char>> {
    Set::new(|name: Seq<char>| labels.contains(Some(name)))
}

/// The table holds every kind of the row once, so its length is the number
/// of distinct kinds of the row. Packing therefore fails exactly where the
/// row has more than 255 distinct kinds: cells without a label and repeated
/// kinds do not count.
pub proof fn lemma_kind_table_len(labels: Seq<Option<Seq<char>>>)
    ensures
        kinds_in(labels).finite(),
        kind_table(labels).len() == kinds_in(labels).len(),
        terrain_encoding(labels) is Err <==> kinds_in(labels).len() > 255,
{
    let table = kind_table(labels);
    lemma_kind_table_distinct_labels(labels);
    table.unique_seq_to_set();
    seq_to_set_is_finite(table);
    assert(table.to_set() =~= kinds_in(labels));
}

/// The same for wall cells: packing fails exactly where the row has more
/// than 255 distinct kinds, whatever the elevations are.
pub proof fn lemma_wall_kind_table_len(walls: Seq<(u8, Option<Seq<char>>)>)
    ensures
        kinds_in(wall_labels(walls)).finite(),
        kind_table(wall_labels(walls)).len() == kinds_in(wall_labels(walls)).len(),
        walls_encoding(walls) is Err <==> kinds_in(wall_labels(walls)).len() > 255,
{
    lemma_kind_table_len(wall_labels(walls));
}

/// The table is as long as the row has distinct labels. A list without
/// repeats that is made of labels of the row is no longer than the table,
/// and a list without repeats that holds every label of the row is no
/// shorter.
pub proof fn lemma_kind_table_counts(labels: Seq<Option<Seq<char>>>, distinct: Seq<Seq<char>>)
    requires
        distinct.no_duplicates(),
    ensures
        (forall|i: int| 0 <= i < distinct.len() ==> labels.contains(Some(#[trigger] distinct[i])))
            ==> distinct.len() <= kind_table(labels).len(),
        (forall|name: Seq<char>| labels.contains(Some(name)) ==> distinct.contains(name))
            ==> kind_table(labels).len() <= distinct.len(),
{
    let table = kind_table(labels);
    lemma_kind_table_distinct_labels(labels);
    table.unique_seq_to_set();
    distinct.unique_seq_to_set();
    seq_to_set_is_finite(table);
    seq_to_set_is_finite(distinct);
    if forall|i: int| 0 <= i < distinct.len() ==> labels.contains(Some(#[trigger] distinct[i])) {
        assert forall|name: Seq<char>| distinct.to_set().contains(name) implies table.to_set().contains(
            name,
        ) by {
            let i = choose|i: int| 0 <= i < distinct.len() && distinct[i] == name;
            assert(labels.contains(Some(distinct[i])));
            assert(table.contains(name));
        }
        lemma_len_subset(distinct.to_set(), table.to_set());
    }
    if forall|name: Seq<char>| labels.contains(Some(name)) ==> distinct.contains(name) {
        assert forall|name: Seq<char>| table.to_set().contains(name) implies distinct.to_set().contains(
            name,
        ) by {
            assert(table.contains(name));
            assert(labels.contains(Some(name)));
        }
        lemma_len_subset(table.to_set(), distinct.to_set());
    }
}

/// A row with 256 distinct labels, or more, cannot be packed: packing it
/// fails with `CapacityExceeded`.
pub proof fn lemma_capacity_exceeded(labels: Seq<Option<Seq<char>>>, distinct: Seq<Seq<char>>)
    requires
        distinct.no_duplicates(),
        distinct.len() >= 256,
        forall|i: int| 0 <= i < distinct.len() ==> labels.contains(Some(#[trigger] distinct[i])),
    ensures
        terrain_encoding(labels) == Err::<(Seq<Seq<char>>, Seq<u8>), CodecError>(
            CodecError::CapacityExceeded,
        ),
{
    lemma_kind_table_counts(labels, distinct);
}

/// A row with at most 255 distinct labels can be packed, and unpacking what
/// packing gave returns the row.
pub proof fn lemma_few_kinds_round_trip(labels: Seq<Option<Seq<char>>>, distinct: Seq<Seq<char>>)
    requires
        distinct.no_duplicates(),
        distinct.len() <= 255,
        forall|name: Seq<char>| labels.contains(Some(name)) ==> distinct.contains(name),
    ensures
        terrain_encoding(labels) matches Ok((kinds, packed)) && terrain_decoding(kinds, packed)
            == Ok::<Seq<Option<Seq<char>>>, CodecError>(labels),
{
    lemma_kind_table_counts(labels, distinct);
    lemma_terrain_round_trip(labels);
}

/// A row of wall cells with 256 distinct labels, or more, cannot be packed:
/// packing it fails with `CapacityExceeded`.
pub proof fn lemma_wall_capacity_exceeded(
    walls: Seq<(u8, Option<Seq<char>>)>,
    distinct: Seq<Seq<char>>,
)
    requires
        distinct.no_duplicates(),
        distinct.len() >= 256,
        forall|i: int|
            0 <= i < distinct.len() ==> wall_labels(walls).contains(Some(#[trigger] distinct[i])),
    ensures
        walls_encoding(walls) == Err::<(Seq<Seq<char>>, Seq<u8>), CodecError>(
            CodecError::CapacityExceeded,
        ),
{
    lemma_kind_table_counts(wall_labels(walls), distinct);
}

/// A row of wall cells with at most 255 distinct labels can be packed, and
/// unpacking what packing gave returns the row.
pub proof fn lemma_few_wall_kinds_round_trip(
    walls: Seq<(u8, Option<Seq<char>>)>,
    distinct: Seq<Seq<char>>,
)
    requires
        distinct.no_duplicates(),
        distinct.len() <= 255,
        forall|name: Seq<char>|
            wall_labels(walls).contains(Some(name)) ==> distinct.contains(name),
    ensures
        walls_encoding(walls) matches Ok((kinds, packed)) && walls_decoding(kinds, packed) == Ok::<
            Seq<(u8, Option<Seq<char>>)>,
            CodecError,
        >(walls),
{
    lemma_kind_table_counts(wall_labels(walls), distinct);
    lemma_walls_round_trip(walls);
}

/// Unpacking what packing gave returns the row: for every row with at most
/// 255 distinct labels, the packed bytes can be read under the row's table,
/// and reading them gives the row back.
pub proof fn lemma_terrain_round_trip(labels: Seq<Option<Seq<char>>>)
    requires
        kind_table(labels).len() <= 255,
    ensures
        terrain_encoding(labels) == Ok::<(Seq<Seq<char>>, Seq<u8>), CodecError>(
            (kind_table(labels), packed_kinds(labels)),
        ),
        terrain_decoding(kind_table(labels), packed_kinds(labels)) == Ok::<
            Seq<Option<Seq<char>>>,
            CodecError,
        >(labels),
{
    let table = kind_table(labels);
    let packed = packed_kinds(labels);
    lemma_kind_table_holds(labels);
    assert forall|i: int| 0 <= i < packed.len() implies code_valid(
        table.len(),
        #[trigger] packed[i],
    ) && unpacked_cell(table, packed[i]) == labels[i] by {
        if let Some(name) = labels[i] {
            lemma_slot_exists(table, name);
        }
    }
    assert(unpacked_kinds(table, packed) =~= labels);
}

/// The same for wall cells: for every row of wall cells with at most 255
/// distinct labels, unpacking the packed row gives the row back, elevations
/// included.
pub proof fn lemma_walls_round_trip(walls: Seq<(u8, Option<Seq<char>>)>)
    requires
        kind_table(wall_labels(walls)).len() <= 255,
    ensures
        walls_encoding(walls) == Ok::<(Seq<Seq<char>>, Seq<u8>), CodecError>(
            (kind_table(wall_labels(walls)), packed_walls(walls)),
        ),
        walls_decoding(kind_table(wall_labels(walls)), packed_walls(walls)) == Ok::<
            Seq<(u8, Option<Seq<char>>)>,
            CodecError,
        >(walls),
{
    let labels = wall_labels(walls);
    let table = kind_table(labels);
    let packed = packed_walls(walls);
    lemma_kind_table_holds(labels);
    assert(packed.len() == 2 * walls.len());
    assert forall|c: int| 0 <= c < packed.len() / 2 implies code_valid(
        table.len(),
        #[trigger] packed[2 * c],
    ) && unpacked_cell(table, packed[2 * c]) == walls[c].1 && packed[2 * c + 1] == walls[c].0 by {
        assert((2 * c) % 2 == 0 && (2 * c) / 2 == c);
        assert((2 * c + 1) % 2 == 1 && (2 * c + 1) / 2 == c);
        assert(labels[c] == walls[c].1);
        if let Some(name) = walls[c].1 {
            lemma_slot_exists(table, name);
        }
    }
    assert(unpacked_walls(table, packed) =~= walls);
}

/// Byte 255 reads as a cell without a kind, whatever the table holds: it is
/// valid under every table, and the cell it unpacks to has no kind.
pub proof fn lemma_absent_code(kinds: Seq<Seq<char>>, packed: Seq<u8>, i: int)
    requires
        0 <= i < packed.len(),
        packed[i] == 255,
    ensures
        code_valid(kinds.len(), packed[i]),
        unpacked_kinds(kinds, packed)[i] == None::<Seq<char>>,
{
}

/// A packed wall row of odd length is refused as malformed, whatever it and
/// the table hold.
pub proof fn lemma_odd_walls_malformed(kinds: Seq<Seq<char>>, packed: Seq<u8>)
    requires
        packed.len() % 2 == 1,
    ensures
        walls_decoding(kinds, packed) == Err::<Seq<(u8, Option<Seq<char>>)>, CodecError>(
            CodecError::MalformedLength,
        ),
{
}

/// Gives the byte for one cell and adds the cell's label to the table where
/// it is new. A cell without a label gets 255 and leaves the table alone. A
/// label that would need an index above 254 is refused, and the table stays
/// as it was.
pub fn entry_index(kinds: &mut Vec<String>, entry: &Option<String>) -> (r: Result<u8, CodecError>)
    ensures
        r == entry_code(names_view(old(kinds)@), label_view(*entry)),
        r.is_ok() ==> names_view(final(kinds)@) == interned(
            names_view(old(kinds)@),
            label_view(*entry),
        ),
        r.is_err() || *entry is None ==> final(kinds)@ == old(kinds)@,
        old(kinds)@.len() <= final(kinds)@.len() <= old(kinds)@.len() + 1,
{
    match entry {
        None => Ok(ABSENT),
        Some(id) => {
            let ghost table = names_view(kinds@);
            let p: usize = slot_of(kinds, id);
            if p >= MAX_KINDS {
                return Err(CodecError::CapacityExceeded);
            }
            if p == kinds.len() {
                kinds.push(id.clone());
                assert(names_view(kinds@) =~= table.push(id@));
            }
            Ok(p as u8)
        },
    }
}

/// Packs a terrain row: the kind table in order of first occurrence, and one
/// byte per cell. Fails exactly where the row has more than 255 distinct
/// kinds.
/// What it gives unpacks to the row.
pub fn encode_terrain(labels: &[Option<String>]) -> (r: Result<(Vec<String>, Vec<u8>), CodecError>)
    ensures
        match r {
            Ok((kinds, packed)) => terrain_encoding(labels_view(labels@)) == Ok::<
                (Seq<Seq<char>>, Seq<u8>),
                CodecError,
            >((names_view(kinds@), packed@)),
            Err(e) => terrain_encoding(labels_view(labels@)) == Err::<
                (Seq<Seq<char>>, Seq<u8>),
                CodecError,
            >(e),
        },
        r matches Ok((kinds, packed)) ==> terrain_decoding(names_view(kinds@), packed@) == Ok::<
            Seq<Option<Seq<char>>>,
            CodecError,
        >(labels_view(labels@)),
        r is Err <==> kinds_in(labels_view(labels@)).len() > 255,
{
    proof {
        lemma_kind_table_len(labels_view(labels@));
    }
    let ghost row = labels_view(labels@);
    let mut kinds: Vec<String> = Vec::new();
    let mut packed: Vec<u8> = Vec::new();
    let mut i: usize = 0;
    assert(names_view(kinds@) =~= kind_table(row.take(0)));
    while i < labels.len()
        invariant
            i <= labels.len(),
            row == labels_view(labels@),
            kind_table(row).len() == kinds_in(row).len(),
            names_view(kinds@) == kind_table(row.take(i as int)),
            kinds@.len() <= 255,
            packed@.len() == i,
            forall|j: int|
                0 <= j < i ==> #[trigger] packed@[j] == cell_code(names_view(kinds@), row[j]),
        decreases labels.len() - i,
    {
        let ghost before = names_view(kinds@);
        proof {
            assert(row.take(i + 1).drop_last() =~= row.take(i as int));
            assert(row.take(i + 1).last() == row[i as int]);
            lemma_interned_extends(before, row[i as int]);
            lemma_kind_table_prefix(row, i as int);
            lemma_kind_table_prefix(row, i + 1);
        }
        match entry_index(&mut kinds, &labels[i]) {
            Ok(code) => {
                packed.push(code);
                proof {
                    let after = names_view(kinds@);
                    assert(after == kind_table(row.take(i + 1)));
                    assert(after.len() <= 255);
                    assert forall|j: int| 0 <= j < i + 1 implies #[trigger] packed@[j]
                        == cell_code(after, row[j]) by {
                        if let Some(name) = row[j] {
                            if j < i {
                                lemma_slot_stable(before, row[i as int], name);
                            } else {
                                lemma_slot_exists(before, name);
                                lemma_slot_unique(after, name, slot(before, name));
                            }
                        }
                    }
                }
            },
            Err(e) => {
                proof {
                    let name = row[i as int]->Some_0;
                    lemma_slot_exists(before, name);
                    assert(kind_table(row.take(i + 1)).len() == 256);
                }
                return Err(e);
            },
        }
        i = i + 1;
    }
    proof {
        assert(row.take(i as int) =~= row);
        assert(packed@ =~= packed_kinds(row));
        lemma_terrain_round_trip(row);
    }
    Ok((kinds, packed))
}

/// Packs a row of wall cells: the kind table in order of first occurrence,
/// and two bytes per cell, kind then elevation. Fails exactly where the row
/// has more than 255 distinct kinds. What it gives unpacks to the row.
pub fn encode_walls(walls: &[(u8, Option<String>)]) -> (r: Result<
    (Vec<String>, Vec<u8>),
    CodecError,
>)
    ensures
        match r {
            Ok((kinds, packed)) => walls_encoding(walls_view(walls@)) == Ok::<
                (Seq<Seq<char>>, Seq<u8>),
                CodecError,
            >((names_view(kinds@), packed@)),
            Err(e) => walls_encoding(walls_view(walls@)) == Err::<
                (Seq<Seq<char>>, Seq<u8>),
                CodecError,
            >(e),
        },
        r matches Ok((kinds, packed)) ==> walls_decoding(names_view(kinds@), packed@) == Ok::<
            Seq<(u8, Option<Seq<char>>)>,
            CodecError,
        >(walls_view(walls@)),
        r is Err <==> kinds_in(wall_labels(walls_view(walls@))).len() > 255,
{
    proof {
        lemma_wall_kind_table_len(walls_view(walls@));
    }
    let ghost cells = walls_view(walls@);
    let ghost row = wall_labels(cells);
    let mut kinds: Vec<String> = Vec::new();
    let mut packed: Vec<u8> = Vec::new();
    let mut i: usize = 0;
    assert(names_view(kinds@) =~= kind_table(row.take(0)));
    while i < walls.len()
        invariant
            i <= walls.len(),
            cells == walls_view(walls@),
            row == wall_labels(cells),
            kind_table(row).len() == kinds_in(row).len(),
            names_view(kinds@) == kind_table(row.take(i as int)),
            kinds@.len() <= 255,
            packed@.len() == 2 * i,
            forall|j: int|
                0 <= j < i ==> #[trigger] packed@[2 * j] == cell_code(names_view(kinds@), row[j]),
            forall|j: int| 0 <= j < i ==> #[trigger] packed@[2 * j + 1] == cells[j].0,
        decreases walls.len() - i,
    {
        let ghost before = names_view(kinds@);
        let ghost bytes = packed@;
        proof {
            assert(row.take(i + 1).drop_last() =~= row.take(i as int));
            assert(row.take(i + 1).last() == row[i as int]);
            lemma_interned_extends(before, row[i as int]);
        }
        match entry_index(&mut kinds, &walls[i].1) {
            Ok(code) => {
                packed.push(code);
                packed.push(walls[i].0);
                proof {
                    let after = names_view(kinds@);
                    assert(after == kind_table(row.take(i + 1)));
                    assert(after.len() <= 255);
                    assert forall|j: int| 0 <= j < i + 1 implies #[trigger] packed@[2 * j]
                        == cell_code(after, row[j]) by {
                        if j < i {
                            assert(packed@[2 * j] == bytes[2 * j]);
                        }
                        if let Some(name) = row[j] {
                            if j < i {
                                lemma_kind_table_prefix(row, i as int);
                                lemma_slot_stable(before, row[i as int], name);
                            } else {
                                lemma_slot_exists(before, name);
                                lemma_slot_unique(after, name, slot(before, name));
                            }
                        }
                    }
                    assert forall|j: int| 0 <= j < i + 1 implies #[trigger] packed@[2 * j + 1]
                        == cells[j].0 by {
                        if j < i {
                            assert(packed@[2 * j + 1] == bytes[2 * j + 1]);
                        }
                    }
                }
            },
            Err(e) => {
                proof {
                    let name = row[i as int]->Some_0;
                    lemma_slot_exists(before, name);
                    assert(kind_table(row.take(i + 1)).len() == 256);
                    lemma_kind_table_prefix(row, i + 1);
                }
                return Err(e);
            },
        }
        i = i + 1;
    }
    proof {
        assert(row.take(i as int) =~= row);
        assert forall|k: int| 0 <= k < packed@.len() implies packed@[k] == packed_walls(
            cells,
        )[k] by {
            let j = k / 2;
            if k % 2 == 0 {
                assert(k == 2 * j);
            } else {
                assert(k == 2 * j + 1);
            }
        }
        assert(packed@ =~= packed_walls(cells));
        lemma_walls_round_trip(cells);
    }
    Ok((kinds, packed))
}

/// Unpacks a terrain row. A byte that is neither 255 nor an index into
/// `kinds` makes the whole row invalid.
pub fn decode_terrain(kinds: &[String], packed: &[u8]) -> (r: Result<
    Vec<Option<String>>,
    CodecError,
>)
    ensures
        match r {
            Ok(labels) => terrain_decoding(names_view(kinds@), packed@) == Ok::<
                Seq<Option<Seq<char>>>,
                CodecError,
            >(labels_view(labels@)),
            Err(e) => terrain_decoding(names_view(kinds@), packed@) == Err::<
                Seq<Option<Seq<char>>>,
                CodecError,
            >(e),
        },
{
    let ghost table = names_view(kinds@);
    let mut out: Vec<Option<String>> = Vec::new();
    let mut i: usize = 0;
    while i < packed.len()
        invariant
            i <= packed.len(),
            table == names_view(kinds@),
            out@.len() == i,
            forall|j: int| 0 <= j < i ==> code_valid(table.len(), #[trigger] packed@[j]),
            forall|j: int|
                0 <= j < i ==> label_view(#[trigger] out@[j]) == unpacked_cell(table, packed@[j]),
        decreases packed.len() - i,
    {
        let code: u8 = packed[i];
        let index: usize = code as usize;
        if code == ABSENT {
            out.push(None);
        } else if index >= kinds.len() {
            assert(!code_valid(table.len(), packed@[i as int]));
            return Err(CodecError::InvalidIndex);
        } else {
            out.push(Some(kinds[index].clone()));
        }
        i = i + 1;
    }
    assert(labels_view(out@) =~= unpacked_kinds(table, packed@));
    Ok(out)
}

/// Unpacks a row of wall cells: kind byte, then elevation byte, per cell. An
/// odd number of bytes is malformed; a kind byte that is neither 255 nor an
/// index into `kinds` makes the row invalid.
pub fn decode_walls(kinds: &[String], packed: &[u8]) -> (r: Result<
    Vec<(u8, Option<String>)>,
    CodecError,
>)
    ensures
        match r {
            Ok(walls) => walls_decoding(names_view(kinds@), packed@) == Ok::<
                Seq<(u8, Option<Seq<char>>)>,
                CodecError,
            >(walls_view(walls@)),
            Err(e) => walls_decoding(names_view(kinds@), packed@) == Err::<
                Seq<(u8, Option<Seq<char>>)>,
                CodecError,
            >(e),
        },
{
    if packed.len() % 2 != 0 {
        return Err(CodecError::MalformedLength);
    }
    let ghost table = names_view(kinds@);
    let cells: usize = packed.len() / 2;
    let mut out: Vec<(u8, Option<String>)> = Vec::new();
    let mut c: usize = 0;
    while c < cells
        invariant
            c <= cells,
            cells == packed@.len() / 2,
            2 * cells <= usize::MAX,
            packed@.len() % 2 == 0,
            table == names_view(kinds@),
            out@.len() == c,
            forall|j: int| 0 <= j < c ==> code_valid(table.len(), #[trigger] packed@[2 * j]),
            forall|j: int|
                0 <= j < c ==> (#[trigger] out@[j]).0 == packed@[2 * j + 1] && label_view(
                    out@[j].1,
                ) == unpacked_cell(table, packed@[2 * j]),
        decreases cells - c,
    {
        let code: u8 = packed[2 * c];
        let elevation: u8 = packed[2 * c + 1];
        let index: usize = code as usize;
        if code == ABSENT {
            out.push((elevation, None));
        } else if index >= kinds.len() {
            assert(!code_valid(table.len(), packed@[2 * c]));
            return Err(CodecError::InvalidIndex);
        } else {
            out.push((elevation, Some(kinds[index].clone())));
        }
        c = c + 1;
    }
    assert(walls_view(out@) =~= unpacked_walls(table, packed@));
    Ok(out)
}

} // verus!
