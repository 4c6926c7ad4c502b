//! The font registry: a catalog of font slots built once at construction,
//! each slot loading its binary payload lazily and at most once. Slot
//! indices are stable; an index beyond the catalog reports the font as
//! unavailable instead of failing.

use vstd::prelude::*;

verus! {

/// One discovered font face: where its bytes live, and the payload once
/// it has been loaded (or found unloadable).
#[derive(Debug, PartialEq, Eq)]
pub struct FontSlot {
    /// The path of the file holding the face.
    pub path: String,
    /// The face's index within a font collection file, zero for a single
    /// face.
    pub face_index: u32,
    /// Untried, or the loaded payload (none when loading failed).
    payload: Option<Option<Vec<u8>>>,
}

/// The mathematical form of a [`FontSlot`].
pub struct FontSlotV {
    pub path: Seq<char>,
    pub face_index: u32,
    pub payload: Option<Option<Seq<u8>>>,
}

impl View for FontSlot {
    type V = FontSlotV;

    closed spec fn view(&self) -> FontSlotV {
        FontSlotV {
            path: self.path@,
            face_index: self.face_index,
            payload: match self.payload {
                None => None,
                Some(None) => Some(None),
                Some(Some(ref b)) => Some(Some(b@)),
            },
        }
    }
}

/// What a font query answers.
#[derive(Debug, PartialEq, Eq)]
pub enum FontQuery {
    /// The index lies beyond the catalog: the font is unavailable.
    Unavailable,
    /// The slot's payload is already settled: loaded bytes, or known
    /// unloadable.
    Settled(Option<Vec<u8>>),
    /// The slot has not been tried: load this file and face index, then
    /// hand the outcome to [`FontCatalog::settle`].
    NeedsLoad(String, u32),
}

/// The font catalog: slots indexed as discovered at construction.
#[derive(Debug, PartialEq, Eq)]
pub struct FontCatalog {
    slots: Vec<FontSlot>,
}

impl View for FontCatalog {
    type V = Seq<FontSlotV>;

    closed spec fn view(&self) -> Seq<FontSlotV> {
        Seq::new(
            self.slots@.len(),
            |i: int|
                if 0 <= i < self.slots@.len() {
                    self.slots@[i]@
                } else {
                    FontSlotV { path: Seq::empty(), face_index: 0, payload: None }
                },
        )
    }
}

impl FontCatalog {
    /// Builds the catalog from the discovered faces, none loaded yet.
    pub fn from_paths(paths: Vec<(String, u32)>) -> (r: Self)
        ensures
            r@.len() == paths@.len(),
            forall|i: int| 0 <= i < paths@.len() ==> #[trigger] r@[i] == (FontSlotV {
                path: paths@[i].0@,
                face_index: paths@[i].1,
                payload: None,
            }),
    {
        let mut slots: Vec<FontSlot> = Vec::new();
        let mut i: usize = 0;
        while i < paths.len()
            invariant
                i <= paths.len(),
                slots@.len() == i,
                forall|j: int| 0 <= j < i ==> #[trigger] slots@[j]@ == (FontSlotV {
                    path: paths@[j].0@,
                    face_index: paths@[j].1,
                    payload: None,
                }),
            decreases paths.len() - i,
        {
            let (path, face_index) = (paths[i].0.clone(), paths[i].1);
            slots.push(FontSlot { path, face_index, payload: None });
            i = i + 1;
        }
        FontCatalog { slots }
    }

    /// How many faces the catalog holds.
    pub fn len(&self) -> (r: usize)
        ensures
            r == self@.len(),
    {
        self.slots.len()
    }

    /// Queries a face by index. An index beyond the catalog answers
    /// `Unavailable` and never fails; a settled slot answers its payload;
    /// an untried slot asks the caller to load it.
    pub fn query(&self, index: usize) -> (r: FontQuery)
        ensures
            index >= self@.len() <==> r is Unavailable,
            index < self@.len() ==> match self@[index as int].payload {
                Some(p) => r matches FontQuery::Settled(q) && (match (p, q) {
                    (Some(b), Some(b2)) => b == b2@,
                    (None, None) => true,
                    _ => false,
                }),
                None => r matches FontQuery::NeedsLoad(p2, ix) && p2@ == self@[
                    index as int
                ].path && ix == self@[index as int].face_index,
            },
    {
        if index >= self.slots.len() {
            return FontQuery::Unavailable;
        }
        let slot = &self.slots[index];
        match &slot.payload {
            Some(Some(b)) => FontQuery::Settled(Some(clone_font_bytes(b))),
            Some(None) => FontQuery::Settled(None),
            None => FontQuery::NeedsLoad(slot.path.clone(), slot.face_index),
        }
    }

    /// Memoizes a load outcome for an untried slot; the outcome of the
    /// first load settles the slot for the catalog's lifetime.
    pub fn settle(&mut self, index: usize, loaded: Option<Vec<u8>>)
        requires
            index < old(self)@.len(),
        ensures
            final(self)@.len() == old(self)@.len(),
            forall|j: int| 0 <= j < old(self)@.len() && j != index ==> final(self)@[j]
                == old(self)@[j],
            old(self)@[index as int].payload is Some ==> final(self)@ == old(self)@,
            old(self)@[index as int].payload is None ==> final(self)@[index as int]
                == (FontSlotV {
                path: old(self)@[index as int].path,
                face_index: old(self)@[index as int].face_index,
                payload: Some(
                    match loaded {
                        Some(b) => Some(b@),
                        None => None,
                    },
                ),
            }),
    {
        let ghost pre = self@;
        let already = match &self.slots[index].payload {
            Some(_) => true,
            None => false,
        };
        if already {
            return ;
        }
        let slot = self.slots.remove(index);
        self.slots.insert(
            index,
            FontSlot { path: slot.path, face_index: slot.face_index, payload: Some(loaded) },
        );
        proof {
            assert(forall|j: int| 0 <= j < pre.len() && j != index ==> self@[j] == pre[j]);
        }
    }
}

/// Cloning font bytes keeps them.
fn clone_font_bytes(v: &Vec<u8>) -> (r: Vec<u8>)
    ensures
        r@ == v@,
{
    let mut out: Vec<u8> = Vec::new();
    let mut i: usize = 0;
    while i < v.len()
        invariant
            i <= v.len(),
            out@ =~= v@.subrange(0, i as int),
        decreases v.len() - i,
    {
        out.push(v[i]);
        i = i + 1;
    }
    proof {
        assert(out@ =~= v@);
    }
    out
}

} // verus!
