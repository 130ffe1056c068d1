//! `Contents/header.xml`: the id-keyed shape tables.

pub mod types;
pub mod view;
pub mod parser;

use std::collections::HashMap;
use vstd::prelude::*;
use crate::text::str_eq;
use types::{char_font_name, find_face, find_face_exec, Bullet, BorderFill, CharShape, FontFace, FontLang, Numbering, ParaShape, Style};

verus! {

broadcast use vstd::std_specs::hash::group_hash_axioms;

/// The parsed header tables of a document. Each map is keyed by the
/// record's `id`, the integer the body uses to refer to it.
#[derive(Debug, Default, Clone)]
pub struct HeaderTables {
    pub char_shapes: HashMap<u32, CharShape>,
    pub para_shapes: HashMap<u32, ParaShape>,
    pub border_fills: HashMap<u32, BorderFill>,
    pub styles: HashMap<u32, Style>,
    pub bullets: HashMap<u32, Bullet>,
    pub numberings: HashMap<u32, Numbering>,
    pub font_faces: Vec<FontFace>,
}

/// Every record is stored under its own id.
pub open spec fn header_wf(h: HeaderTables) -> bool {
    &&& forall|k: u32| #[trigger] h.char_shapes@.contains_key(k) ==> h.char_shapes@[k].id == k
    &&& forall|k: u32| #[trigger] h.para_shapes@.contains_key(k) ==> h.para_shapes@[k].id == k
    &&& forall|k: u32| #[trigger] h.border_fills@.contains_key(k) ==> h.border_fills@[k].id == k
    &&& forall|k: u32| #[trigger] h.styles@.contains_key(k) ==> h.styles@[k].id == k
    &&& forall|k: u32| #[trigger] h.bullets@.contains_key(k) ==> h.bullets@[k].id == k
    &&& forall|k: u32| #[trigger] h.numberings@.contains_key(k) ==> h.numberings@[k].id == k
}

/// Whether some style is named `name`.
pub open spec fn has_style_named(h: HeaderTables, name: Seq<char>) -> bool {
    exists|k: u32| #[trigger] h.styles@.contains_key(k) && h.styles@[k].name@ == name
}

impl HeaderTables {
    /// Empty tables.
    pub fn new() -> (r: HeaderTables)
        ensures
            r.char_shapes@ == Map::<u32, CharShape>::empty(),
            r.para_shapes@ == Map::<u32, ParaShape>::empty(),
            r.border_fills@ == Map::<u32, BorderFill>::empty(),
            r.styles@ == Map::<u32, Style>::empty(),
            r.bullets@ == Map::<u32, Bullet>::empty(),
            r.numberings@ == Map::<u32, Numbering>::empty(),
            r.font_faces@ == Seq::<FontFace>::empty(),
            header_wf(r),
    {
        HeaderTables {
            char_shapes: HashMap::new(),
            para_shapes: HashMap::new(),
            border_fills: HashMap::new(),
            styles: HashMap::new(),
            bullets: HashMap::new(),
            numberings: HashMap::new(),
            font_faces: Vec::new(),
        }
    }

    /// The first font table of a language.
    pub fn font_face(&self, lang: FontLang) -> (r: Option<&FontFace>)
        ensures
            match r {
                Some(f) => find_face(self.font_faces@, lang) == Some(*f),
                None => find_face(self.font_faces@, lang) is None,
            },
    {
        find_face_exec(self.font_faces.as_slice(), lang)
    }

    /// Resolve a character shape's font name for a language.
    pub fn font_name(&self, char_shape_id: u32, lang: FontLang) -> (r: Option<&str>)
        ensures
            match r {
                Some(s) => self.char_shapes@.contains_key(char_shape_id) && char_font_name(
                    self.char_shapes@[char_shape_id],
                    lang,
                    self.font_faces@,
                ) == Some(s@),
                None => !self.char_shapes@.contains_key(char_shape_id) || char_font_name(
                    self.char_shapes@[char_shape_id],
                    lang,
                    self.font_faces@,
                ) is None,
            },
    {
        match self.char_shapes.get(&char_shape_id) {
            Some(cs) => cs.font_name(lang, self.font_faces.as_slice()),
            None => None,
        }
    }

    /// A style named `name`, if any. Names need not be unique; which of
    /// several equally named styles is returned follows the map's
    /// iteration order.
    pub fn style_by_name(&self, name: &str) -> (r: Option<&Style>)
        ensures
            match r {
                Some(s) => exists|k: u32| #[trigger]
                    self.styles@.contains_key(k) && self.styles@[k] == *s && s.name@ == name@,
                None => !has_style_named(*self, name@),
            },
    {
        for kv in it: self.styles.iter()
            invariant
                forall|j: int|
                    0 <= j < it.index() ==> (#[trigger] it.seq()[j]).1.name@ != name@,
                forall|j: int|
                    0 <= j < it.seq().len() ==> self.styles@.contains_key(*(#[trigger] it.seq()[j]).0)
                        && self.styles@[*it.seq()[j].0] == *it.seq()[j].1,
                forall|k: u32|
                    #[trigger] self.styles@.contains_key(k) ==> it.seq().contains((&k, &self.styles@[k])),
        {
            let (k, s) = kv;
            if str_eq(s.name.as_str(), name) {
                return Some(s);
            }
        }
        None
    }
}

} // verus!
