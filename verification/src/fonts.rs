//! The font catalog: plain metadata for every discovered face, grouped
//! into families on demand, and one compute-once slot per face that
//! memoizes the decoded font.
use vstd::prelude::*;
use typst::text::Font;

verus! {

/// Plain metadata of one discovered font face.
pub struct FaceInfo {
    pub family: String,
    pub weight: u16,
    pub stretch: u16,
    pub style: u8,
}

/// The variant fields of a face: weight, stretch (per-mille), and style
/// (0 normal, 1 italic, 2 oblique).
#[derive(Clone, Copy, PartialEq, Eq, Structural, Debug)]
pub struct FaceKey {
    pub weight: u16,
    pub stretch: u16,
    pub style: u8,
}

/// The variant fields of a face.
pub open spec fn face_key(f: FaceInfo) -> FaceKey {
    FaceKey { weight: f.weight, stretch: f.stretch, style: f.style }
}

/// The keys of the faces of one family, in discovery order.
pub open spec fn keys_of(faces: Seq<FaceInfo>, name: Seq<char>) -> Seq<FaceKey> {
    faces.filter(|f: FaceInfo| f.family@ == name).map_values(|f: FaceInfo| face_key(f))
}

/// One family: its name and the keys of its faces, in discovery order.
pub struct Family {
    pub name: String,
    pub faces: Vec<FaceKey>,
}

/// Whether a family of the given name is listed.
pub open spec fn lists_family(r: Seq<Family>, name: Seq<char>) -> bool {
    exists|j: int| 0 <= j < r.len() && (#[trigger] r[j]).name@ == name
}

/// Whether some face carries the given family name.
pub open spec fn from_faces(faces: Seq<FaceInfo>, name: Seq<char>) -> bool {
    exists|i: int| 0 <= i < faces.len() && (#[trigger] faces[i]).family@ == name
}

/// The decoded font of typst, carried opaquely through the catalog.
#[verifier::external_type_specification]
#[verifier::external_body]
pub struct ExFont(Font);

pub assume_specification[ <Font as Clone>::clone ](f: &Font) -> (r: Font)
    ensures
        r == *f,
;

/// What decoding the face at `index` out of `data` yields: a font, or
/// nothing when the bytes hold no parsable face.
pub uninterp spec fn font_of(data: Seq<u8>, index: u32) -> Option<Font>;

/// Relies on typst::text::Font::new: parses one face out of font-file
/// bytes; the result is a function of the bytes and the face index alone.
#[verifier::external_body]
fn decode_font(data: Vec<u8>, index: u32) -> (r: Option<Font>)
    ensures
        r == font_of(data@, index),
{
    Font::new(typst::foundations::Bytes::from(data), index)
}

/// The memoization state of one slot: not yet decoded, or decoded once
/// and for all (a failed decode is memoized as no font).
pub enum SlotState {
    Vacant,
    Ready(Option<Font>),
}

/// One discovered face: its index within its font file, and its decode
/// state.
pub struct FontSlot {
    pub index: u32,
    pub state: SlotState,
}

/// What one load yields and leaves behind: an already-ready slot answers
/// from memory and changes nothing; a vacant slot decodes the supplied
/// bytes once and memoizes the outcome, whatever it is.
pub open spec fn slot_load(s: FontSlot, data: Option<Seq<u8>>) -> (FontSlot, Option<Font>) {
    match s.state {
        SlotState::Ready(v) => (s, v),
        SlotState::Vacant => {
            let decoded = match data {
                Option::Some(d) => font_of(d, s.index),
                Option::None => Option::None,
            };
            (FontSlot { index: s.index, state: SlotState::Ready(decoded) }, decoded)
        },
    }
}

/// Law: decode happens at most once per slot. After a first load, the
/// slot is ready; every later load, whatever bytes it brings, returns
/// exactly what the first load produced and leaves the slot as it is.
pub proof fn lemma_slot_load_once(s: FontSlot, data1: Option<Seq<u8>>, data2: Option<Seq<u8>>)
    ensures
        slot_load(s, data1).0.state is Ready,
        slot_load(slot_load(s, data1).0, data2).0 == slot_load(s, data1).0,
        slot_load(slot_load(s, data1).0, data2).1 == slot_load(s, data1).1,
{
}

fn contains_name(names: &Vec<String>, s: &String) -> (r: bool)
    ensures
        r ==> exists|t: int| 0 <= t < names.len() && #[trigger] names[t]@ == s@,
        !r ==> forall|t: int| 0 <= t < names.len() ==> #[trigger] names[t]@ != s@,
{
    let m = names.len();
    let mut k: usize = 0;
    while k < m
        invariant
            m == names.len(),
            k <= m,
            forall|t: int| 0 <= t < k ==> #[trigger] names[t]@ != s@,
        decreases m - k,
    {
        if names[k] == *s {
            return true;
        }
        k += 1;
    }
    false
}

/// The font catalog: one metadata record and one decode slot per face,
/// in discovery order.
pub struct FontCatalog {
    pub faces: Vec<FaceInfo>,
    pub slots: Vec<FontSlot>,
}

impl FontCatalog {
    pub open spec fn wf(self) -> bool {
        self.faces.len() == self.slots.len()
    }

    /// Indexes the given faces: face `i` of the input becomes slot `i`,
    /// vacant, remembering its index within its font file.
    pub fn build(faces: Vec<FaceInfo>, file_indices: Vec<u32>) -> (r: FontCatalog)
        requires
            faces.len() == file_indices.len(),
        ensures
            r.wf(),
            r.faces == faces,
            r.slots.len() == faces.len(),
            forall|i: int|
                0 <= i < faces.len() ==> (#[trigger] r.slots[i]).index == file_indices[i]
                    && r.slots[i].state is Vacant,
    {
        let n = file_indices.len();
        let mut slots: Vec<FontSlot> = Vec::new();
        let mut i: usize = 0;
        while i < n
            invariant
                n == file_indices.len(),
                i <= n,
                slots.len() == i,
                forall|j: int|
                    0 <= j < i ==> (#[trigger] slots[j]).index == file_indices[j]
                        && slots[j].state is Vacant,
            decreases n - i,
        {
            slots.push(FontSlot { index: file_indices[i], state: SlotState::Vacant });
            i += 1;
        }
        FontCatalog { faces, slots }
    }

    /// The index, within its font file, of the face a vacant slot would
    /// decode, so the caller knows what bytes to fetch.
    pub fn slot_file_index(&self, slot: usize) -> (r: u32)
        requires
            slot < self.slots.len(),
        ensures
            r == self.slots[slot as int].index,
    {
        self.slots[slot].index
    }

    /// Whether a slot still awaits its first decode.
    pub fn slot_vacant(&self, slot: usize) -> (r: bool)
        requires
            slot < self.slots.len(),
        ensures
            r == (self.slots[slot as int].state is Vacant),
    {
        match &self.slots[slot].state {
            SlotState::Vacant => true,
            SlotState::Ready(_) => false,
        }
    }

    /// Loads the font of a slot: answers from the memoized state if the
    /// slot is ready, and otherwise decodes the supplied bytes (none
    /// meaning the byte source could not be read) exactly once, memoizing
    /// the outcome for every later call.
    pub fn load_with(&mut self, slot: usize, data: Option<Vec<u8>>) -> (r: Option<Font>)
        requires
            slot < old(self).slots.len(),
        ensures
            final(self).faces == old(self).faces,
            final(self).slots.len() == old(self).slots.len(),
            forall|j: int|
                0 <= j < old(self).slots.len() && j != slot ==> final(self).slots[j] == old(
                    self,
                ).slots[j],
            ({
                let data_view = match data {
                    Option::Some(d) => Option::Some(d@),
                    Option::None => Option::None,
                };
                let (slot_after, result) = slot_load(old(self).slots[slot as int], data_view);
                r == result && final(self).slots[slot as int] == slot_after
            }),
    {
        let ready = !self.slot_vacant(slot);
        if ready {
            let r = match &self.slots[slot].state {
                SlotState::Ready(v) => match v {
                    Option::Some(f) => Option::Some(f.clone()),
                    Option::None => Option::None,
                },
                SlotState::Vacant => Option::None,
            };
            return r;
        }
        let index = self.slot_file_index(slot);
        let decoded = match data {
            Option::Some(d) => decode_font(d, index),
            Option::None => Option::None,
        };
        let stored = match &decoded {
            Option::Some(f) => Option::Some(f.clone()),
            Option::None => Option::None,
        };
        self.slots.set(slot, FontSlot { index, state: SlotState::Ready(stored) });
        decoded
    }

    /// Groups the faces into families: one entry per distinct family
    /// name, each holding the keys of that family's faces in discovery
    /// order. The family order is the order of first appearance.
    #[verifier::rlimit(50)]
    pub fn families(&self) -> (r: Vec<Family>)
        ensures
            forall|i: int, j: int|
                0 <= i < j < r.len() ==> (#[trigger] r[i]).name@ != (#[trigger] r[j]).name@,
            forall|j: int|
                0 <= j < r.len() ==> (#[trigger] r[j]).faces@ == keys_of(
                    self.faces@,
                    r[j].name@,
                ),
            forall|i: int|
                0 <= i < self.faces.len() ==> lists_family(r@, (#[trigger] self.faces[i]).family@),
            forall|j: int| 0 <= j < r.len() ==> from_faces(self.faces@, (#[trigger] r[j]).name@),
    {
        let n = self.faces.len();
        let mut names: Vec<String> = Vec::new();
        let mut i: usize = 0;
        let ghost mut origins: Seq<int> = Seq::empty();
        while i < n
            invariant
                n == self.faces.len(),
                i <= n,
                forall|a: int, b: int|
                    0 <= a < b < names.len() ==> #[trigger] names[a]@ != #[trigger] names[b]@,
                forall|j: int|
                    0 <= j < i ==> exists|k: int|
                        0 <= k < names.len() && #[trigger] names[k]@ == (
                        #[trigger] self.faces[j]).family@,
                origins.len() == names.len(),
                forall|k: int|
                    0 <= k < names.len() ==> 0 <= #[trigger] origins[k] < i && self.faces[
                        origins[k]
                    ].family@ == names[k]@,
            decreases n - i,
        {
            let ghost pre_names = names@;
            let found = contains_name(&names, &self.faces[i].family);
            if !found {
                names.push(self.faces[i].family.clone());
                proof {
                    origins = origins.push(i as int);
                    assert forall|a: int, b: int|
                        0 <= a < b < names.len() implies #[trigger] names[a]@
                        != #[trigger] names[b]@ by {
                        if b < pre_names.len() {
                            assert(pre_names[a]@ != pre_names[b]@);
                        } else {
                            assert(names[b]@ == self.faces@[i as int].family@);
                            assert(pre_names[a]@ != self.faces@[i as int].family@);
                        }
                    }
                }
            }
            proof {
                assert forall|j: int| 0 <= j <= i implies exists|k: int|
                    0 <= k < names.len() && #[trigger] names[k]@ == (
                    #[trigger] self.faces[j]).family@ by {
                    if j < i {
                        let k = choose|k: int|
                            0 <= k < pre_names.len() && #[trigger] pre_names[k]@
                                == self.faces@[j].family@;
                        assert(names[k]@ == self.faces@[j].family@);
                    } else if found {
                        let k = choose|k: int|
                            0 <= k < pre_names.len() && #[trigger] pre_names[k]@
                                == self.faces@[i as int].family@;
                        assert(names[k]@ == self.faces@[i as int].family@);
                    } else {
                        assert(names[pre_names.len() as int]@ == self.faces@[
                            i as int
                        ].family@);
                    }
                }
            }
            i += 1;
        }
        let mut r: Vec<Family> = Vec::new();
        let mut g: usize = 0;
        let m = names.len();
        while g < m
            invariant
                m == names.len(),
                g <= m,
                n == self.faces.len(),
                r.len() == g,
                forall|a: int, b: int|
                    0 <= a < b < names.len() ==> #[trigger] names[a]@ != #[trigger] names[b]@,
                forall|j: int| 0 <= j < g ==> (#[trigger] r[j]).name@ == names[j]@,
                forall|j: int|
                    0 <= j < g ==> (#[trigger] r[j]).faces@ == keys_of(self.faces@, names[j]@),
            decreases m - g,
        {
            let mut keys: Vec<FaceKey> = Vec::new();
            let mut t: usize = 0;
            while t < n
                invariant
                    n == self.faces.len(),
                    t <= n,
                    g < m == names.len(),
                    keys@ == keys_of(self.faces@.take(t as int), names[g as int]@),
                decreases n - t,
            {
                proof {
                    let pred = |f: FaceInfo| f.family@ == names[g as int]@;
                    assert(self.faces@.take(t + 1).drop_last() =~= self.faces@.take(t as int));
                    assert(self.faces@.take(t + 1).last() == self.faces@[t as int]);
                    reveal_with_fuel(Seq::filter, 2);
                    if pred(self.faces@[t as int]) {
                        assert(self.faces@.take(t + 1).filter(pred) =~= self.faces@.take(
                            t as int,
                        ).filter(pred).push(self.faces@[t as int]));
                    } else {
                        assert(self.faces@.take(t + 1).filter(pred) =~= self.faces@.take(
                            t as int,
                        ).filter(pred));
                    }
                }
                if self.faces[t].family == names[g] {
                    keys.push(
                        FaceKey {
                            weight: self.faces[t].weight,
                            stretch: self.faces[t].stretch,
                            style: self.faces[t].style,
                        },
                    );
                    proof {
                        assert(keys@ =~= keys_of(self.faces@.take(t + 1), names[g as int]@));
                    }
                } else {
                    proof {
                        assert(keys@ =~= keys_of(self.faces@.take(t + 1), names[g as int]@));
                    }
                }
                t += 1;
            }
            proof {
                assert(self.faces@.take(n as int) =~= self.faces@);
            }
            r.push(Family { name: names[g].clone(), faces: keys });
            g += 1;
        }
        proof {
            assert forall|i: int| 0 <= i < self.faces.len() implies lists_family(
                r@,
                (#[trigger] self.faces[i]).family@,
            ) by {
                let k = choose|k: int|
                    0 <= k < names.len() && #[trigger] names[k]@ == self.faces[i].family@;
                assert(r[k].name@ == names[k]@);
                assert(r@[k].name@ == self.faces[i].family@);
            }
            assert forall|j: int| 0 <= j < r.len() implies from_faces(
                self.faces@,
                (#[trigger] r[j]).name@,
            ) by {
                assert(r[j].name@ == names[j]@);
                assert(0 <= origins[j] < n && self.faces@[origins[j]].family@ == names[j]@);
            }
        }
        r
    }
}

} // verus!
