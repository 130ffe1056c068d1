//! Header record types: the decoded attribute enums, the per-language
//! tuple and the shape records of `Contents/header.xml`.

use std::collections::HashMap;
use vstd::prelude::*;
use vstd::array::*;
use crate::text::{str_eq, trim, trim_str};

verus! {

broadcast use vstd::std_specs::hash::group_hash_axioms;

/// The seven font-language slots, in declaration order.
#[derive(Debug, Default, Clone, Copy, PartialEq, Eq, Hash, Structural)]
pub enum FontLang {
    #[default]
    Hangul,
    Latin,
    Hanja,
    Japanese,
    Other,
    Symbol,
    User,
}

/// The slot index of a language.
pub open spec fn lang_index(l: FontLang) -> int {
    match l {
        FontLang::Hangul => 0,
        FontLang::Latin => 1,
        FontLang::Hanja => 2,
        FontLang::Japanese => 3,
        FontLang::Other => 4,
        FontLang::Symbol => 5,
        FontLang::User => 6,
    }
}

/// The language of a slot index.
pub open spec fn lang_at(i: int) -> FontLang {
    if i == 0 {
        FontLang::Hangul
    } else if i == 1 {
        FontLang::Latin
    } else if i == 2 {
        FontLang::Hanja
    } else if i == 3 {
        FontLang::Japanese
    } else if i == 4 {
        FontLang::Other
    } else if i == 5 {
        FontLang::Symbol
    } else {
        FontLang::User
    }
}

/// The language named by the trimmed `lang` attribute text.
pub open spec fn font_lang_of(t: Seq<char>) -> Option<FontLang> {
    if t == "HANGUL"@ {
        Some(FontLang::Hangul)
    } else if t == "LATIN"@ {
        Some(FontLang::Latin)
    } else if t == "HANJA"@ {
        Some(FontLang::Hanja)
    } else if t == "JAPANESE"@ {
        Some(FontLang::Japanese)
    } else if t == "OTHER"@ {
        Some(FontLang::Other)
    } else if t == "SYMBOL"@ {
        Some(FontLang::Symbol)
    } else if t == "USER"@ {
        Some(FontLang::User)
    } else {
        None
    }
}

impl FontLang {
    /// All seven languages in slot order.
    pub const ALL: [FontLang; 7] = [
        FontLang::Hangul,
        FontLang::Latin,
        FontLang::Hanja,
        FontLang::Japanese,
        FontLang::Other,
        FontLang::Symbol,
        FontLang::User,
    ];

    /// Parse the `lang` attribute of `<hh:fontface>`.
    pub fn parse(s: &str) -> (r: Option<FontLang>)
        ensures
            r == font_lang_of(trim(s@)),
    {
        let t = trim_str(s);
        if str_eq(t, "HANGUL") {
            Some(FontLang::Hangul)
        } else if str_eq(t, "LATIN") {
            Some(FontLang::Latin)
        } else if str_eq(t, "HANJA") {
            Some(FontLang::Hanja)
        } else if str_eq(t, "JAPANESE") {
            Some(FontLang::Japanese)
        } else if str_eq(t, "OTHER") {
            Some(FontLang::Other)
        } else if str_eq(t, "SYMBOL") {
            Some(FontLang::Symbol)
        } else if str_eq(t, "USER") {
            Some(FontLang::User)
        } else {
            None
        }
    }

    /// The slot index of this language.
    pub fn index(self) -> (r: usize)
        ensures
            r == lang_index(self),
            r < 7,
    {
        match self {
            FontLang::Hangul => 0,
            FontLang::Latin => 1,
            FontLang::Hanja => 2,
            FontLang::Japanese => 3,
            FontLang::Other => 4,
            FontLang::Symbol => 5,
            FontLang::User => 6,
        }
    }

    /// The language of slot `i` (`i < 7`).
    pub fn from_index(i: usize) -> (r: FontLang)
        requires
            i < 7,
        ensures
            r == lang_at(i as int),
            lang_index(r) == i,
    {
        if i == 0 {
            FontLang::Hangul
        } else if i == 1 {
            FontLang::Latin
        } else if i == 2 {
            FontLang::Hanja
        } else if i == 3 {
            FontLang::Japanese
        } else if i == 4 {
            FontLang::Other
        } else if i == 5 {
            FontLang::Symbol
        } else {
            FontLang::User
        }
    }
}

/// A per-language tuple of values, one slot per [`FontLang`].
#[derive(Debug, Clone, Copy, Default, PartialEq, Eq)]
pub struct LangTuple<T: Copy + Default> {
    pub values: [T; 7],
}

impl<T: Copy + Default> LangTuple<T> {
    /// The value of a language's slot.
    pub fn get(&self, lang: FontLang) -> (r: T)
        ensures
            r == self.values@[lang_index(lang)],
    {
        self.values[lang.index()]
    }

    /// Replace the value of a language's slot.
    pub fn set(&mut self, lang: FontLang, v: T)
        ensures
            final(self).values@ == old(self).values@.update(lang_index(lang), v),
    {
        let i = lang.index();
        self.values.set(i, v);
    }
}

/// Line type of a cell border (`<hh:leftBorder type=".."/>`).
#[derive(Debug, Clone, Copy, PartialEq, Eq, Hash, Default, Structural)]
#[non_exhaustive]
pub enum LineType {
    #[default]
    NoLine,
    Solid,
    Dash,
    Dot,
    DashDot,
    DashDotDot,
    LongDash,
    Circle,
    DoubleSlim,
    SlimThick,
    ThickSlim,
    SlimThickSlim,
    Wave,
    DoubleWave,
    ThickThreeD,
    ThickThreeDInset,
    ThinThreeD,
    ThinThreeDInset,
    /// An unrecognized token.
    Other,
}

/// The variant named by a trimmed attribute token.
pub open spec fn line_type_of(t: Seq<char>) -> LineType {
    if t == "NONE"@ {
        LineType::NoLine
    }     else if t == "SOLID"@ {
        LineType::Solid
    }     else if t == "DASH"@ {
        LineType::Dash
    }     else if t == "DOT"@ {
        LineType::Dot
    }     else if t == "DASH_DOT"@ {
        LineType::DashDot
    }     else if t == "DASH_DOT_DOT"@ {
        LineType::DashDotDot
    }     else if t == "LONG_DASH"@ {
        LineType::LongDash
    }     else if t == "CIRCLE"@ {
        LineType::Circle
    }     else if t == "DOUBLE_SLIM"@ {
        LineType::DoubleSlim
    }     else if t == "SLIM_THICK"@ {
        LineType::SlimThick
    }     else if t == "THICK_SLIM"@ {
        LineType::ThickSlim
    }     else if t == "SLIM_THICK_SLIM"@ {
        LineType::SlimThickSlim
    }     else if t == "WAVE"@ {
        LineType::Wave
    }     else if t == "DOUBLE_WAVE"@ {
        LineType::DoubleWave
    }     else if t == "THICK_3D"@ {
        LineType::ThickThreeD
    }     else if t == "THICK_3D_INSET"@ {
        LineType::ThickThreeDInset
    }     else if t == "THIN_3D"@ {
        LineType::ThinThreeD
    }     else if t == "THIN_3D_INSET"@ {
        LineType::ThinThreeDInset
    } else {
        LineType::Other
    }
}

impl LineType {
    /// Decode an attribute value; unknown tokens give `Other`.
    pub fn parse(s: &str) -> (r: LineType)
        ensures
            r == line_type_of(trim(s@)),
    {
        let t = trim_str(s);
        if str_eq(t, "NONE") {
            LineType::NoLine
        }         else if str_eq(t, "SOLID") {
            LineType::Solid
        }         else if str_eq(t, "DASH") {
            LineType::Dash
        }         else if str_eq(t, "DOT") {
            LineType::Dot
        }         else if str_eq(t, "DASH_DOT") {
            LineType::DashDot
        }         else if str_eq(t, "DASH_DOT_DOT") {
            LineType::DashDotDot
        }         else if str_eq(t, "LONG_DASH") {
            LineType::LongDash
        }         else if str_eq(t, "CIRCLE") {
            LineType::Circle
        }         else if str_eq(t, "DOUBLE_SLIM") {
            LineType::DoubleSlim
        }         else if str_eq(t, "SLIM_THICK") {
            LineType::SlimThick
        }         else if str_eq(t, "THICK_SLIM") {
            LineType::ThickSlim
        }         else if str_eq(t, "SLIM_THICK_SLIM") {
            LineType::SlimThickSlim
        }         else if str_eq(t, "WAVE") {
            LineType::Wave
        }         else if str_eq(t, "DOUBLE_WAVE") {
            LineType::DoubleWave
        }         else if str_eq(t, "THICK_3D") {
            LineType::ThickThreeD
        }         else if str_eq(t, "THICK_3D_INSET") {
            LineType::ThickThreeDInset
        }         else if str_eq(t, "THIN_3D") {
            LineType::ThinThreeD
        }         else if str_eq(t, "THIN_3D_INSET") {
            LineType::ThinThreeDInset
        } else {
            LineType::Other
        }
    }
}

/// Horizontal alignment (`<hh:align horizontal=".."/>`).
#[derive(Debug, Clone, Copy, PartialEq, Eq, Hash, Default, Structural)]
#[non_exhaustive]
pub enum HAlign {
    #[default]
    Justify,
    Left,
    Right,
    Center,
    Distribute,
    DistributeSpace,
    /// An unrecognized token.
    Other,
}

/// The variant named by a trimmed attribute token.
pub open spec fn h_align_of(t: Seq<char>) -> HAlign {
    if t == "JUSTIFY"@ {
        HAlign::Justify
    }     else if t == "LEFT"@ {
        HAlign::Left
    }     else if t == "RIGHT"@ {
        HAlign::Right
    }     else if t == "CENTER"@ {
        HAlign::Center
    }     else if t == "DISTRIBUTE"@ {
        HAlign::Distribute
    }     else if t == "DISTRIBUTE_SPACE"@ {
        HAlign::DistributeSpace
    } else {
        HAlign::Other
    }
}

impl HAlign {
    /// Decode an attribute value; unknown tokens give `Other`.
    pub fn parse(s: &str) -> (r: HAlign)
        ensures
            r == h_align_of(trim(s@)),
    {
        let t = trim_str(s);
        if str_eq(t, "JUSTIFY") {
            HAlign::Justify
        }         else if str_eq(t, "LEFT") {
            HAlign::Left
        }         else if str_eq(t, "RIGHT") {
            HAlign::Right
        }         else if str_eq(t, "CENTER") {
            HAlign::Center
        }         else if str_eq(t, "DISTRIBUTE") {
            HAlign::Distribute
        }         else if str_eq(t, "DISTRIBUTE_SPACE") {
            HAlign::DistributeSpace
        } else {
            HAlign::Other
        }
    }
}

/// Vertical alignment (`<hh:align vertical=".."/>`).
#[derive(Debug, Clone, Copy, PartialEq, Eq, Hash, Default, Structural)]
#[non_exhaustive]
pub enum VAlign {
    #[default]
    Baseline,
    Top,
    Center,
    Bottom,
    /// An unrecognized token.
    Other,
}

/// The variant named by a trimmed attribute token.
pub open spec fn v_align_of(t: Seq<char>) -> VAlign {
    if t == "BASELINE"@ {
        VAlign::Baseline
    }     else if t == "TOP"@ {
        VAlign::Top
    }     else if t == "CENTER"@ {
        VAlign::Center
    }     else if t == "BOTTOM"@ {
        VAlign::Bottom
    } else {
        VAlign::Other
    }
}

impl VAlign {
    /// Decode an attribute value; unknown tokens give `Other`.
    pub fn parse(s: &str) -> (r: VAlign)
        ensures
            r == v_align_of(trim(s@)),
    {
        let t = trim_str(s);
        if str_eq(t, "BASELINE") {
            VAlign::Baseline
        }         else if str_eq(t, "TOP") {
            VAlign::Top
        }         else if str_eq(t, "CENTER") {
            VAlign::Center
        }         else if str_eq(t, "BOTTOM") {
            VAlign::Bottom
        } else {
            VAlign::Other
        }
    }
}

/// Heading kind (`<hh:heading type=".."/>`).
#[derive(Debug, Clone, Copy, PartialEq, Eq, Hash, Default, Structural)]
#[non_exhaustive]
pub enum HeadingType {
    #[default]
    NoHeading,
    Outline,
    Number,
    Bullet,
    /// An unrecognized token.
    Other,
}

/// The variant named by a trimmed attribute token.
pub open spec fn heading_type_of(t: Seq<char>) -> HeadingType {
    if t == "NONE"@ {
        HeadingType::NoHeading
    }     else if t == "OUTLINE"@ {
        HeadingType::Outline
    }     else if t == "NUMBER"@ {
        HeadingType::Number
    }     else if t == "BULLET"@ {
        HeadingType::Bullet
    } else {
        HeadingType::Other
    }
}

impl HeadingType {
    /// Decode an attribute value; unknown tokens give `Other`.
    pub fn parse(s: &str) -> (r: HeadingType)
        ensures
            r == heading_type_of(trim(s@)),
    {
        let t = trim_str(s);
        if str_eq(t, "NONE") {
            HeadingType::NoHeading
        }         else if str_eq(t, "OUTLINE") {
            HeadingType::Outline
        }         else if str_eq(t, "NUMBER") {
            HeadingType::Number
        }         else if str_eq(t, "BULLET") {
            HeadingType::Bullet
        } else {
            HeadingType::Other
        }
    }
}

/// Line-break behaviour for words.
#[derive(Debug, Clone, Copy, PartialEq, Eq, Hash, Default, Structural)]
#[non_exhaustive]
pub enum LineBreakWord {
    #[default]
    KeepWord,
    BreakWord,
    /// An unrecognized token.
    Other,
}

/// The variant named by a trimmed attribute token.
pub open spec fn line_break_word_of(t: Seq<char>) -> LineBreakWord {
    if t == "KEEP_WORD"@ {
        LineBreakWord::KeepWord
    }     else if t == "BREAK_WORD"@ {
        LineBreakWord::BreakWord
    } else {
        LineBreakWord::Other
    }
}

impl LineBreakWord {
    /// Decode an attribute value; unknown tokens give `Other`.
    pub fn parse(s: &str) -> (r: LineBreakWord)
        ensures
            r == line_break_word_of(trim(s@)),
    {
        let t = trim_str(s);
        if str_eq(t, "KEEP_WORD") {
            LineBreakWord::KeepWord
        }         else if str_eq(t, "BREAK_WORD") {
            LineBreakWord::BreakWord
        } else {
            LineBreakWord::Other
        }
    }
}

/// Line-spacing kind (`<hh:lineSpacing type=".."/>`).
#[derive(Debug, Clone, Copy, PartialEq, Eq, Hash, Default, Structural)]
#[non_exhaustive]
pub enum LineSpacingType {
    #[default]
    Percent,
    Fixed,
    BetweenLines,
    Minimum,
    /// An unrecognized token.
    Other,
}

/// The variant named by a trimmed attribute token.
pub open spec fn line_spacing_type_of(t: Seq<char>) -> LineSpacingType {
    if t == "PERCENT"@ {
        LineSpacingType::Percent
    }     else if t == "FIXED"@ {
        LineSpacingType::Fixed
    }     else if t == "BETWEEN_LINES"@ {
        LineSpacingType::BetweenLines
    }     else if t == "AT_LEAST"@ {
        LineSpacingType::Minimum
    }     else if t == "MINIMUM"@ {
        LineSpacingType::Minimum
    } else {
        LineSpacingType::Other
    }
}

impl LineSpacingType {
    /// Decode an attribute value; unknown tokens give `Other`.
    pub fn parse(s: &str) -> (r: LineSpacingType)
        ensures
            r == line_spacing_type_of(trim(s@)),
    {
        let t = trim_str(s);
        if str_eq(t, "PERCENT") {
            LineSpacingType::Percent
        }         else if str_eq(t, "FIXED") {
            LineSpacingType::Fixed
        }         else if str_eq(t, "BETWEEN_LINES") {
            LineSpacingType::BetweenLines
        }         else if str_eq(t, "AT_LEAST") {
            LineSpacingType::Minimum
        }         else if str_eq(t, "MINIMUM") {
            LineSpacingType::Minimum
        } else {
            LineSpacingType::Other
        }
    }
}

/// Font table of one language: font id to face name.
#[derive(Debug, Clone, Default, PartialEq, Eq)]
pub struct FontFace {
    pub lang: FontLang,
    pub fonts: HashMap<u32, String>,
}

/// A character-shape record (`<hh:charPr>`).
#[derive(Debug, Clone, Default, PartialEq, Eq)]
pub struct CharShape {
    pub id: u32,
    pub height: u32,
    pub text_color: String,
    pub shade_color: String,
    pub use_font_space: bool,
    pub use_kerning: bool,
    pub sym_mark: String,
    pub border_fill_id_ref: u32,
    pub font_ref: LangTuple<u32>,
    pub ratio: LangTuple<u32>,
    pub spacing: LangTuple<i32>,
    pub rel_sz: LangTuple<u32>,
    pub offset: LangTuple<i32>,
    pub bold: bool,
    pub italic: bool,
    pub underline: bool,
    pub strikeout: bool,
    pub outline: bool,
    pub emboss: bool,
    pub engrave: bool,
    pub shadow: bool,
    pub supscript: bool,
    pub subscript: bool,
}

/// The first font table of language `lang` in `faces`.
pub open spec fn find_face(faces: Seq<FontFace>, lang: FontLang) -> Option<FontFace>
    decreases faces.len(),
{
    if faces.len() == 0 {
        None
    } else if faces[0].lang == lang {
        Some(faces[0])
    } else {
        find_face(faces.drop_first(), lang)
    }
}

/// The name of font `id` in the first table of language `lang`.
pub open spec fn face_font_name(faces: Seq<FontFace>, lang: FontLang, id: u32) -> Option<Seq<char>> {
    match find_face(faces, lang) {
        Some(f) => if f.fonts@.contains_key(id) {
            Some(f.fonts@[id]@)
        } else {
            None
        },
        None => None,
    }
}

/// The font name of a character shape for a language.
pub open spec fn char_font_name(cs: CharShape, lang: FontLang, faces: Seq<FontFace>) -> Option<
    Seq<char>,
> {
    face_font_name(faces, lang, cs.font_ref.values@[lang_index(lang)])
}

/// The distinct font names of the first `k` language slots, in
/// first-seen order.
pub open spec fn font_names_upto(cs: CharShape, faces: Seq<FontFace>, k: int) -> Seq<Seq<char>>
    decreases k,
{
    if k <= 0 {
        Seq::empty()
    } else {
        let prev = font_names_upto(cs, faces, k - 1);
        match char_font_name(cs, lang_at(k - 1), faces) {
            Some(n) => if prev.contains(n) {
                prev
            } else {
                prev.push(n)
            },
            None => prev,
        }
    }
}

/// The distinct font names over all seven slots, in first-seen order.
pub open spec fn char_font_names(cs: CharShape, faces: Seq<FontFace>) -> Seq<Seq<char>> {
    font_names_upto(cs, faces, 7)
}

/// The views of a sequence of strings.
pub open spec fn string_views(v: Seq<String>) -> Seq<Seq<char>> {
    v.map_values(|s: String| s@)
}

/// The first font table of a language, searched from slot `i` on.
pub fn find_face_exec<'a>(faces: &'a [FontFace], lang: FontLang) -> (r: Option<&'a FontFace>)
    ensures
        match r {
            Some(f) => find_face(faces@, lang) == Some(*f),
            None => find_face(faces@, lang) is None,
        },
{
    let mut i: usize = 0;
    assert(faces@.subrange(0, faces@.len() as int) =~= faces@);
    while i < faces.len()
        invariant
            i <= faces@.len(),
            find_face(faces@, lang) == find_face(faces@.subrange(i as int, faces@.len() as int), lang),
        decreases faces.len() - i,
    {
        assert(faces@.subrange(i as int, faces@.len() as int).drop_first() =~= faces@.subrange(
            i + 1,
            faces@.len() as int,
        ));
        if faces[i].lang == lang {
            return Some(&faces[i]);
        }
        i = i + 1;
    }
    None
}

impl CharShape {
    /// Resolve this shape's font name for a language against the font
    /// tables.
    pub fn font_name<'a>(&self, lang: FontLang, faces: &'a [FontFace]) -> (r: Option<&'a str>)
        ensures
            match r {
                Some(s) => char_font_name(*self, lang, faces@) == Some(s@),
                None => char_font_name(*self, lang, faces@) is None,
            },
    {
        let id = self.font_ref.get(lang);
        match find_face_exec(faces, lang) {
            Some(f) => match f.fonts.get(&id) {
                Some(s) => Some(s.as_str()),
                None => None,
            },
            None => None,
        }
    }

    /// The font names over all seven language slots, deduplicated in
    /// first-seen order.
    pub fn font_names(&self, faces: &[FontFace]) -> (r: Vec<String>)
        ensures
            string_views(r@) == char_font_names(*self, faces@),
    {
        let mut out: Vec<String> = Vec::new();
        let mut k: usize = 0;
        while k < 7
            invariant
                k <= 7,
                string_views(out@) == font_names_upto(*self, faces@, k as int),
            decreases 7 - k,
        {
            let lang = FontLang::from_index(k);
            match self.font_name(lang, faces) {
                Some(name) => {
                    let mut seen = false;
                    let mut j: usize = 0;
                    while j < out.len()
                        invariant
                            j <= out.len(),
                            seen == exists|m: int| 0 <= m < j && out@[m]@ == name@,
                        decreases out.len() - j,
                    {
                        if str_eq(out[j].as_str(), name) {
                            seen = true;
                        }
                        j = j + 1;
                    }
                    proof {
                        let sv = string_views(out@);
                        if seen {
                            let m = choose|m: int| 0 <= m < out.len() && out@[m]@ == name@;
                            assert(sv[m] == name@);
                        } else {
                            assert forall|m: int| 0 <= m < sv.len() implies sv[m] != name@ by {
                                assert(sv[m] == out@[m]@);
                            }
                        }
                    }
                    if !seen {
                        let ghost before = out@;
                        out.push(String::from_str(name));
                        assert(string_views(out@) =~= string_views(before).push(name@));
                    }
                },
                None => {},
            }
            k = k + 1;
        }
        out
    }
}

/// A single border edge of a [`BorderFill`].
#[derive(Debug, Clone, PartialEq, Default)]
pub struct Border {
    pub line_type: LineType,
    /// Width in whole nanometres (millionths of a millimetre).
    pub width_nm: i64,
    pub color: String,
}

/// The decoded fill of a border-fill record.
#[derive(Debug, Clone, PartialEq)]
pub enum CellFillBrush {
    Solid { face: String, hatch: String, alpha: u32 },
    Gradation {
        gradation_type: String,
        start_color: String,
        end_color: String,
        width_center: u32,
        height_center: u32,
        angle: u32,
        blur_level: u32,
        blur_center: u32,
    },
    Image {
        file: String,
        included: bool,
        fill_type: String,
        fill_value: i32,
        effect_type: String,
        effect_value: i32,
        watermark: u32,
    },
}

/// A `<hh:borderFill>` record.
#[derive(Debug, Clone, Default, PartialEq)]
pub struct BorderFill {
    pub id: u32,
    pub three_d: bool,
    pub shadow: bool,
    pub center_line: String,
    pub break_cell_separate_line: bool,
    pub left: Border,
    pub right: Border,
    pub top: Border,
    pub bottom: Border,
    pub diagonal: Border,
    pub has_fill_brush: bool,
    pub fill_brush: Option<CellFillBrush>,
}

impl BorderFill {
    /// Whether left, right, top and bottom are all solid.
    pub fn four_sides_solid(&self) -> (r: bool)
        ensures
            r == (self.left.line_type == LineType::Solid && self.right.line_type == LineType::Solid
                && self.top.line_type == LineType::Solid && self.bottom.line_type
                == LineType::Solid),
    {
        self.left.line_type == LineType::Solid && self.right.line_type == LineType::Solid
            && self.top.line_type == LineType::Solid && self.bottom.line_type == LineType::Solid
    }
}

/// `<hh:lineSpacing type=".." value=".." unit=".."/>`.
#[derive(Debug, Clone, PartialEq, Eq, Default)]
pub struct LineSpacing {
    pub type_: LineSpacingType,
    pub value: i32,
    pub unit: String,
}

/// Paragraph margins in HWPUNIT.
#[derive(Debug, Clone, Copy, PartialEq, Eq, Default)]
pub struct Margin {
    pub indent: i32,
    pub left: i32,
    pub right: i32,
    pub prev: i32,
    pub next: i32,
}

/// A paragraph-shape record (`<hh:paraPr>`).
#[derive(Debug, Clone, Default, PartialEq, Eq)]
pub struct ParaShape {
    pub id: u32,
    pub tab_pr_id_ref: u32,
    pub condense: u32,
    pub font_line_height: bool,
    pub snap_to_grid: bool,
    pub suppress_line_numbers: bool,
    pub checked: bool,
    pub h_align: HAlign,
    pub v_align: VAlign,
    pub heading_type: HeadingType,
    pub heading_id_ref: u32,
    pub heading_level: u32,
    pub break_latin_word: LineBreakWord,
    pub break_non_latin_word: LineBreakWord,
    pub widow_orphan: bool,
    pub keep_with_next: bool,
    pub keep_lines: bool,
    pub page_break_before: bool,
    pub line_wrap: bool,
    pub auto_spacing_eng: bool,
    pub auto_spacing_num: bool,
    pub margin: Margin,
    pub line_spacing: LineSpacing,
    pub border_fill_id_ref: u32,
    pub border_offset_left: i32,
    pub border_offset_right: i32,
    pub border_offset_top: i32,
    pub border_offset_bottom: i32,
    pub connect: bool,
    pub ignore_margin: bool,
}

/// A `<hh:style>` record.
#[derive(Debug, Clone, Default, PartialEq, Eq)]
pub struct Style {
    pub id: u32,
    pub style_type: String,
    pub name: String,
    pub eng_name: String,
    pub para_pr_id_ref: u32,
    pub char_pr_id_ref: u32,
    pub next_style_id_ref: u32,
    pub lang_id: u32,
    pub lock_form: bool,
}

/// A `<hh:bullet>` record.
#[derive(Debug, Clone, Default, PartialEq, Eq)]
pub struct Bullet {
    pub id: u32,
    pub char: String,
    pub use_image: bool,
}

/// A numbering level template (`<hh:paraHead>`).
#[derive(Debug, Clone, Default, PartialEq, Eq)]
pub struct ParaHead {
    pub start: u32,
    pub level: u32,
    pub align: String,
    pub use_inst_width: bool,
    pub auto_indent: bool,
    pub width_adjust: bool,
    pub text_offset_type: String,
    pub text_offset: u32,
    pub num_format: String,
    pub char_pr_id_ref: u32,
    pub checkable: bool,
    pub num_format_text: String,
}

/// A `<hh:numbering>` record: one template per level, in declaration
/// order.
#[derive(Debug, Clone, Default, PartialEq, Eq)]
pub struct Numbering {
    pub id: u32,
    pub start: u32,
    pub para_heads: Vec<ParaHead>,
}

/// The first level template with the given level.
pub open spec fn find_head(heads: Seq<ParaHead>, level: u32) -> Option<ParaHead>
    decreases heads.len(),
{
    if heads.len() == 0 {
        None
    } else if heads[0].level == level {
        Some(heads[0])
    } else {
        find_head(heads.drop_first(), level)
    }
}

impl Numbering {
    /// The first level template whose level is `level`.
    pub fn by_level(&self, level: u32) -> (r: Option<&ParaHead>)
        ensures
            match r {
                Some(h) => find_head(self.para_heads@, level) == Some(*h),
                None => find_head(self.para_heads@, level) is None,
            },
    {
        let heads = &self.para_heads;
        let mut i: usize = 0;
        assert(heads@.subrange(0, heads@.len() as int) =~= heads@);
        while i < heads.len()
            invariant
                i <= heads@.len(),
                heads@ == self.para_heads@,
                find_head(heads@, level) == find_head(heads@.subrange(i as int, heads@.len() as int), level),
            decreases heads.len() - i,
        {
            assert(heads@.subrange(i as int, heads@.len() as int).drop_first() =~= heads@.subrange(
                i + 1,
                heads@.len() as int,
            ));
            if heads[i].level == level {
                assert(heads@.subrange(i as int, heads@.len() as int)[0] == heads@[i as int]);
                return Some(&heads[i]);
            }
            i = i + 1;
        }
        None
    }
}

} // verus!
