//! The read-only registry of definitions that area construction resolves
//! names against.
//!
//! Each family of definitions is a table of identifiers. A resolved
//! definition is its index in its table; where an identifier stands more
//! than once, the first entry is the one that is found.

use vstd::prelude::*;
use crate::geometry::Size;
use crate::lookup::{
    is_slot, lemma_slot_exists, lemma_slot_unique, names_view, slot, slot_of,
};

verus! {

/// A named footprint that transitions refer to.
#[derive(Debug)]
pub struct ObjectSize {
    pub id: String,
    pub width: i32,
    pub height: i32,
}

/// The definitions that areas can refer to, by family.
#[derive(Debug)]
pub struct Registry {
    pub sprites: Vec<String>,
    pub images: Vec<String>,
    pub sounds: Vec<String>,
    pub encounters: Vec<String>,
    pub props: Vec<String>,
    pub sizes: Vec<ObjectSize>,
}

/// The index under which `id` is found in `table`, if it stands there.
pub open spec fn resolved(table: Seq<Seq<char>>, id: Seq<char>) -> Option<usize> {
    if slot(table, id) < table.len() {
        Some(slot(table, id) as usize)
    } else {
        None
    }
}

/// Whether every identifier of `ids` stands in `table`.
pub open spec fn all_resolved(table: Seq<Seq<char>>, ids: Seq<Seq<char>>) -> bool {
    forall|i: int| 0 <= i < ids.len() ==> resolved(table, #[trigger] ids[i]) is Some
}

/// The identifiers of a table of sizes.
pub open spec fn size_names(sizes: Seq<ObjectSize>) -> Seq<Seq<char>> {
    Seq::new(sizes.len(), |i: int| sizes[i].id@)
}

/// Looks `id` up in `table`.
pub fn resolve(table: &Vec<String>, id: &String) -> (found: Option<usize>)
    ensures
        found == resolved(names_view(table@), id@),
        found matches Some(index) ==> index < table@.len() && table@[index as int]@ == id@,
{
    let p: usize = slot_of(table, id);
    proof {
        lemma_slot_exists(names_view(table@), id@);
    }
    if p < table.len() {
        Some(p)
    } else {
        None
    }
}

/// Looks every identifier of `ids` up in `table`: all of them resolved, in
/// order, or `None` where one is missing.
pub fn resolve_all(table: &Vec<String>, ids: &Vec<String>) -> (found: Option<Vec<usize>>)
    ensures
        found is Some <==> all_resolved(names_view(table@), names_view(ids@)),
        found matches Some(indices) ==> {
            &&& indices@.len() == ids@.len()
            &&& forall|i: int|
                0 <= i < ids@.len() ==> Some(#[trigger] indices@[i]) == resolved(
                    names_view(table@),
                    ids@[i]@,
                )
        },
{
    let mut indices: Vec<usize> = Vec::new();
    let mut i: usize = 0;
    while i < ids.len()
        invariant
            i <= ids.len(),
            indices@.len() == i,
            forall|j: int|
                0 <= j < i ==> Some(#[trigger] indices@[j]) == resolved(
                    names_view(table@),
                    ids@[j]@,
                ),
        decreases ids.len() - i,
    {
        match resolve(table, &ids[i]) {
            Some(p) => {
                indices.push(p);
            },
            None => {
                assert(names_view(ids@)[i as int] == ids@[i as int]@);
                return None;
            },
        }
        i = i + 1;
    }
    assert forall|j: int| 0 <= j < ids@.len() implies resolved(
        names_view(table@),
        #[trigger] names_view(ids@)[j],
    ) is Some by {
        assert(Some(indices@[j]) == resolved(names_view(table@), ids@[j]@));
    }
    Some(indices)
}

impl Registry {
    /// The index of the sprite with identifier `id`, if there is one.
    pub open spec fn sprite_of(self, id: Seq<char>) -> Option<usize> {
        resolved(names_view(self.sprites@), id)
    }

    /// The index of the image with identifier `id`, if there is one.
    pub open spec fn image_of(self, id: Seq<char>) -> Option<usize> {
        resolved(names_view(self.images@), id)
    }

    /// The index of the sound source with identifier `id`, if there is one.
    pub open spec fn sound_of(self, id: Seq<char>) -> Option<usize> {
        resolved(names_view(self.sounds@), id)
    }

    /// The index of the encounter definition with identifier `id`, if there is one.
    pub open spec fn encounter_of(self, id: Seq<char>) -> Option<usize> {
        resolved(names_view(self.encounters@), id)
    }

    /// The index of the prop definition with identifier `id`, if there is one.
    pub open spec fn prop_of(self, id: Seq<char>) -> Option<usize> {
        resolved(names_view(self.props@), id)
    }

    /// The index of the object size with identifier `id`, if there is one.
    pub open spec fn size_of(self, id: Seq<char>) -> Option<usize> {
        resolved(size_names(self.sizes@), id)
    }

    /// The footprint of the size with index `index`.
    pub open spec fn footprint_of(self, index: usize) -> Size {
        Size { width: self.sizes@[index as int].width, height: self.sizes@[index as int].height }
    }

    /// A registry that holds nothing.
    pub fn new() -> (registry: Registry)
        ensures
            registry.sprites@.len() == 0,
            registry.images@.len() == 0,
            registry.sounds@.len() == 0,
            registry.encounters@.len() == 0,
            registry.props@.len() == 0,
            registry.sizes@.len() == 0,
    {
        Registry {
            sprites: Vec::new(),
            images: Vec::new(),
            sounds: Vec::new(),
            encounters: Vec::new(),
            props: Vec::new(),
            sizes: Vec::new(),
        }
    }

    /// The sprite with identifier `id`.
    pub fn sprite(&self, id: &String) -> (found: Option<usize>)
        ensures
            found == self.sprite_of(id@),
            found matches Some(index) ==> index < self.sprites@.len(),
    {
        resolve(&self.sprites, id)
    }

    /// The image with identifier `id`.
    pub fn image(&self, id: &String) -> (found: Option<usize>)
        ensures
            found == self.image_of(id@),
            found matches Some(index) ==> index < self.images@.len(),
    {
        resolve(&self.images, id)
    }

    /// The sound source with identifier `id`.
    pub fn sound(&self, id: &String) -> (found: Option<usize>)
        ensures
            found == self.sound_of(id@),
            found matches Some(index) ==> index < self.sounds@.len(),
    {
        resolve(&self.sounds, id)
    }

    /// The encounter definition with identifier `id`.
    pub fn encounter(&self, id: &String) -> (found: Option<usize>)
        ensures
            found == self.encounter_of(id@),
            found matches Some(index) ==> index < self.encounters@.len(),
    {
        resolve(&self.encounters, id)
    }

    /// The prop definition with identifier `id`.
    pub fn prop(&self, id: &String) -> (found: Option<usize>)
        ensures
            found == self.prop_of(id@),
            found matches Some(index) ==> index < self.props@.len(),
    {
        resolve(&self.props, id)
    }

    /// The object size with identifier `id`.
    pub fn size(&self, id: &String) -> (found: Option<usize>)
        ensures
            found == self.size_of(id@),
            found matches Some(index) ==> index < self.sizes@.len() && self.sizes@[index as int].id@
                == id@,
    {
        let ghost table = size_names(self.sizes@);
        let mut p: usize = 0;
        while p < self.sizes.len() && !(self.sizes[p].id == *id)
            invariant
                p <= self.sizes.len(),
                forall|j: int| 0 <= j < p ==> table[j] != id@,
                table == size_names(self.sizes@),
            decreases self.sizes.len() - p,
        {
            p = p + 1;
        }
        proof {
            assert(is_slot(table, id@, p as int));
            lemma_slot_unique(table, id@, p as int);
        }
        if p < self.sizes.len() {
            Some(p)
        } else {
            None
        }
    }

    /// The footprint of a resolved size.
    pub fn footprint(&self, index: usize) -> (size: Size)
        requires
            index < self.sizes@.len(),
        ensures
            size == self.footprint_of(index),
    {
        Size { width: self.sizes[index].width, height: self.sizes[index].height }
    }
}

} // verus!
