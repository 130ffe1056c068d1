//! The unpacked HWPX container and the parsed document.

use vstd::prelude::*;
use vstd::utf8::valid_utf8;
use crate::document::header::{header_wf, HeaderTables};
use crate::document::run_type::RunTypeInfo;
use crate::document::section::Section;
use crate::text::{parse_u32, parse_u32_spec, to_chars};
use crate::container::{zip_contents, zip_entries, zip_entry_bytes, zip_entry_is_dir, zip_entry_name, zip_len, zip_open};
use crate::document::header::parser::{header_reading, parse_header};
use crate::document::run_type::{build_run_type_infos, default_style_choice, run_views, sections_runs};
use crate::document::section::parser::{parse_section, section_reading};
use crate::error::{DvcError, DvcResult};
use vstd::string::*;

verus! {

/// One named part of the container.
#[derive(Debug)]
pub struct Part {
    pub name: String,
    pub bytes: Vec<u8>,
}

/// The unpacked parts of an HWPX container, in archive order.
#[derive(Debug, Default)]
pub struct HwpxArchive {
    pub parts: Vec<Part>,
}

/// A document: its container and, once parsed, its header, sections
/// and run stream.
#[derive(Debug, Default)]
pub struct Document {
    pub archive: HwpxArchive,
    pub header: Option<HeaderTables>,
    pub sections: Vec<Section>,
    pub run_type_infos: Vec<RunTypeInfo>,
}

// ---------------------------------------------------------------------------
// Part lookup
// ---------------------------------------------------------------------------

/// The first part of `parts` called `name`.
pub open spec fn first_part(parts: Seq<Part>, name: Seq<char>) -> Option<Part>
    decreases parts.len(),
{
    if parts.len() == 0 {
        None
    } else if parts[0].name@ == name {
        Some(parts[0])
    } else {
        first_part(parts.drop_first(), name)
    }
}

// ---------------------------------------------------------------------------
// Byte search
// ---------------------------------------------------------------------------

/// The first position at or after `i` where `pat` occurs in `b`.
pub open spec fn find_from(b: Seq<u8>, pat: Seq<u8>, i: int) -> Option<int>
    decreases b.len() + 1 - i,
{
    if i < 0 || i + pat.len() > b.len() {
        None
    } else if b.subrange(i, i + pat.len()) == pat {
        Some(i)
    } else {
        find_from(b, pat, i + 1)
    }
}

/// Whether `pat` occurs in `b`.
pub open spec fn contains_bytes(b: Seq<u8>, pat: Seq<u8>) -> bool {
    find_from(b, pat, 0) is Some
}

/// The bytes of `href="`.
pub open spec fn href_open() -> Seq<u8> {
    seq![104u8, 114u8, 101u8, 102u8, 61u8, 34u8]
}

/// The bytes of `"`.
pub open spec fn quote_byte() -> Seq<u8> {
    seq![34u8]
}

/// The bytes of `.js`.
pub open spec fn js_ext() -> Seq<u8> {
    seq![46u8, 106u8, 115u8]
}

/// Whether, reading `href="..."` values left to right from `i`, one of
/// them contains `.js`. A value runs to the next `"`; an unterminated
/// value ends the scan.
pub open spec fn js_href_from(b: Seq<u8>, i: int) -> bool
    decreases b.len() - i,
{
    if i < 0 || i > b.len() {
        false
    } else {
        match find_from(b, href_open(), i) {
            None => false,
            Some(p) => match find_from(b, quote_byte(), p + 6) {
                None => false,
                Some(e) => if contains_bytes(b.subrange(p + 6, e), js_ext()) {
                    true
                } else if i < e + 1 <= b.len() {
                    js_href_from(b, e + 1)
                } else {
                    false
                },
            },
        }
    }
}

/// Whether a package manifest declares a script: it is UTF-8 text and
/// one of its `href` values contains `.js`.
pub open spec fn manifest_has_script(b: Seq<u8>) -> bool {
    valid_utf8(b) && js_href_from(b, 0)
}

/// The name of the package manifest part.
pub open spec fn manifest_name() -> Seq<char> {
    "Contents/content.hpf"@
}

/// Whether the parts hold a manifest that declares a script.
pub open spec fn parts_have_macro(parts: Seq<Part>) -> bool {
    match first_part(parts, manifest_name()) {
        Some(p) => manifest_has_script(p.bytes@),
        None => false,
    }
}

proof fn lemma_find_from_bounds(b: Seq<u8>, pat: Seq<u8>, i: int)
    ensures
        find_from(b, pat, i) matches Some(k) ==> i <= k && k + pat.len() <= b.len()
            && b.subrange(k, k + pat.len()) == pat,
    decreases b.len() + 1 - i,
{
    if !(i < 0 || i + pat.len() > b.len()) && b.subrange(i, i + pat.len()) != pat {
        lemma_find_from_bounds(b, pat, i + 1);
    }
}

/// `find_from` on a byte slice.
fn find_bytes(b: &[u8], pat: &Vec<u8>, start: usize) -> (r: Option<usize>)
    requires
        pat@.len() > 0,
    ensures
        match r {
            Some(k) => find_from(b@, pat@, start as int) == Some(k as int),
            None => find_from(b@, pat@, start as int) is None,
        },
{
    let n = b.len();
    let m = pat.len();
    if m > n {
        return None;
    }
    let mut i: usize = start;
    while i <= n - m
        invariant
            n == b@.len(),
            m == pat@.len(),
            m <= n,
            start <= i,
            find_from(b@, pat@, start as int) == find_from(b@, pat@, i as int),
        decreases n - i,
    {
        let mut j: usize = 0;
        let mut same = true;
        while j < m
            invariant
                i + m <= n,
                n == b@.len(),
                m == pat@.len(),
                j <= m,
                same <==> forall|k: int| 0 <= k < j ==> b@[i + k] == pat@[k],
            decreases m - j,
        {
            if b[i + j] != pat[j] {
                same = false;
            }
            j = j + 1;
        }
        if same {
            assert(b@.subrange(i as int, i + m) =~= pat@);
            return Some(i);
        }
        assert(b@.subrange(i as int, i + m) != pat@) by {
            let k = choose|k: int| 0 <= k < m && b@[i + k] != pat@[k];
            assert(b@.subrange(i as int, i + m)[k] == b@[i + k]);
        }
        i = i + 1;
    }
    None
}

/// The bytes of `href="`.
fn href_open_exec() -> (r: Vec<u8>)
    ensures
        r@ == href_open(),
{
    let mut v: Vec<u8> = Vec::new();
    v.push(104u8);
    v.push(114u8);
    v.push(101u8);
    v.push(102u8);
    v.push(61u8);
    v.push(34u8);
    assert(v@ =~= href_open());
    v
}

/// Whether the bytes pass `js_href_from` from the start.
fn scan_js_href(b: &[u8]) -> (r: bool)
    ensures
        r == js_href_from(b@, 0),
{
    let href = href_open_exec();
    let mut quote: Vec<u8> = Vec::new();
    quote.push(34u8);
    assert(quote@ =~= quote_byte());
    let mut js: Vec<u8> = Vec::new();
    js.push(46u8);
    js.push(106u8);
    js.push(115u8);
    assert(js@ =~= js_ext());
    let mut i: usize = 0;
    while i <= b.len()
        invariant
            href@ == href_open(),
            quote@ == quote_byte(),
            js@ == js_ext(),
            js_href_from(b@, 0) == js_href_from(b@, i as int),
        decreases b.len() + 1 - i,
    {
        let p = match find_bytes(b, &href, i) {
            Some(p) => p,
            None => return false,
        };
        proof {
            lemma_find_from_bounds(b@, href_open(), i as int);
        }
        let e = match find_bytes(b, &quote, p + 6) {
            Some(e) => e,
            None => return false,
        };
        proof {
            lemma_find_from_bounds(b@, quote_byte(), p + 6);
        }
        let mut value: Vec<u8> = Vec::new();
        let mut k: usize = p + 6;
        while k < e
            invariant
                p + 6 <= k <= e,
                e < b@.len(),
                value@ == b@.subrange(p + 6, k as int),
            decreases e - k,
        {
            value.push(b[k]);
            assert(value@ =~= b@.subrange(p + 6, k + 1));
            k = k + 1;
        }
        if find_bytes(value.as_slice(), &js, 0).is_some() {
            return true;
        }
        i = e + 1;
    }
    false
}

/// `std::str::from_utf8` succeeds exactly on well-formed UTF-8: its
/// documentation says it returns an error when the slice is not UTF-8.
#[verifier::external_body]
fn is_utf8(bytes: &[u8]) -> (r: bool)
    ensures
        r == valid_utf8(bytes@),
{
    std::str::from_utf8(bytes).is_ok()
}

// ---------------------------------------------------------------------------
// Section part names
// ---------------------------------------------------------------------------

/// The fixed start of a section part name.
pub open spec fn section_prefix() -> Seq<char> {
    "Contents/section"@
}

/// The fixed end of a section part name.
pub open spec fn section_suffix() -> Seq<char> {
    ".xml"@
}

/// The `N` of a part named `Contents/sectionN.xml`, where `N` must be a
/// non-empty decimal `u32`; `None` for any other name.
pub open spec fn section_index_of(name: Seq<char>) -> Option<u32> {
    let p = section_prefix();
    let s = section_suffix();
    if name.len() >= p.len() + s.len() && name.take(p.len() as int) == p && name.skip(
        name.len() - s.len(),
    ) == s {
        let num = name.subrange(p.len() as int, name.len() - s.len());
        if num.len() == 0 {
            None
        } else {
            parse_u32_spec(num)
        }
    } else {
        None
    }
}

/// Whether `v[start..start + p.len()]` is `p`.
fn chars_at(v: &Vec<char>, start: usize, p: &Vec<char>) -> (r: bool)
    requires
        start + p@.len() <= v@.len(),
    ensures
        r == (v@.subrange(start as int, start + p@.len()) == p@),
{
    let n = v.len();
    let mut j: usize = 0;
    while j < p.len()
        invariant
            n == v@.len(),
            start + p@.len() <= v@.len(),
            j <= p@.len(),
            forall|k: int| 0 <= k < j ==> v@[start + k] == p@[k],
        decreases p.len() - j,
    {
        let k = start + j;
        if v[k] != p[j] {
            assert(v@.subrange(start as int, start + p@.len())[j as int] != p@[j as int]);
            return false;
        }
        j = j + 1;
    }
    assert(v@.subrange(start as int, start + p@.len()) =~= p@);
    true
}

/// The `N` of `Contents/sectionN.xml`.
pub fn section_index(name: &str) -> (r: Option<u32>)
    ensures
        r == section_index_of(name@),
{
    let v = to_chars(name);
    let p = to_chars("Contents/section");
    let s = to_chars(".xml");
    if v.len() < s.len() || v.len() - s.len() < p.len() {
        return None;
    }
    let tail = v.len() - s.len();
    if !chars_at(&v, 0, &p) {
        assert(name@.take(p@.len() as int) =~= v@.subrange(0, p@.len() as int));
        return None;
    }
    if !chars_at(&v, tail, &s) {
        assert(name@.skip(tail as int) =~= v@.subrange(tail as int, tail + s@.len()));
        return None;
    }
    assert(name@.take(p@.len() as int) =~= v@.subrange(0, p@.len() as int));
    assert(name@.skip(tail as int) =~= v@.subrange(tail as int, tail + s@.len()));
    if tail == p.len() {
        return None;
    }
    let num = name.substring_char(p.len(), tail);
    parse_u32(num)
}

// ---------------------------------------------------------------------------
// Section parts in order
// ---------------------------------------------------------------------------

/// The section parts of `parts` with their numbers, in archive order.
pub open spec fn section_list(parts: Seq<Part>) -> Seq<(u32, Part)>
    decreases parts.len(),
{
    if parts.len() == 0 {
        Seq::empty()
    } else {
        let rest = section_list(parts.drop_last());
        match section_index_of(parts.last().name@) {
            Some(n) => rest.push((n, parts.last())),
            None => rest,
        }
    }
}

/// `x` placed into `s` after every trailing entry whose number is at
/// most its own: one step of a stable insertion sort.
pub open spec fn insert_by_number(s: Seq<(u32, Part)>, x: (u32, Part)) -> Seq<(u32, Part)>
    decreases s.len(),
{
    if s.len() == 0 || s.last().0 <= x.0 {
        s.push(x)
    } else {
        insert_by_number(s.drop_last(), x).push(s.last())
    }
}

/// `s` stably sorted by number: equal numbers keep their order.
pub open spec fn sort_by_number(s: Seq<(u32, Part)>) -> Seq<(u32, Part)>
    decreases s.len(),
{
    if s.len() == 0 {
        Seq::empty()
    } else {
        insert_by_number(sort_by_number(s.drop_last()), s.last())
    }
}

/// The section parts of `parts`, by number, ties in archive order.
pub open spec fn ordered_sections(parts: Seq<Part>) -> Seq<(u32, Part)> {
    sort_by_number(section_list(parts))
}

/// The entries `(number, part position)` as `(number, part)`.
pub open spec fn entries_parts(e: Seq<(u32, usize)>, parts: Seq<Part>) -> Seq<(u32, Part)> {
    e.map_values(|x: (u32, usize)| (x.0, parts[x.1 as int]))
}

proof fn lemma_insert_split(s: Seq<(u32, Part)>, x: (u32, Part), j: int)
    requires
        0 <= j <= s.len(),
        forall|m: int| j <= m < s.len() ==> s[m].0 > x.0,
        j == 0 || s[j - 1].0 <= x.0,
    ensures
        insert_by_number(s, x) == s.take(j).push(x) + s.skip(j),
    decreases s.len(),
{
    if j == s.len() {
        assert(s.skip(j) =~= Seq::<(u32, Part)>::empty());
        assert(s.take(j) =~= s);
        assert(s.take(j).push(x) + s.skip(j) =~= s.push(x));
    } else {
        let t = s.drop_last();
        lemma_insert_split(t, x, j);
        assert(t.take(j) =~= s.take(j));
        assert(s.take(j).push(x) + s.skip(j) =~= (t.take(j).push(x) + t.skip(j)).push(s.last()));
    }
}

/// The positions of the section parts with their numbers, sorted by
/// number, ties in archive order.
fn ordered_section_entries(parts: &Vec<Part>) -> (r: Vec<(u32, usize)>)
    ensures
        entries_parts(r@, parts@) == ordered_sections(parts@),
        forall|k: int| 0 <= k < r@.len() ==> (#[trigger] r@[k]).1 < parts@.len(),
{
    let mut out: Vec<(u32, usize)> = Vec::new();
    let mut i: usize = 0;
    assert(entries_parts(out@, parts@) =~= sort_by_number(section_list(parts@.take(0))));
    while i < parts.len()
        invariant
            i <= parts@.len(),
            entries_parts(out@, parts@) == sort_by_number(section_list(parts@.take(i as int))),
            forall|k: int| 0 <= k < out@.len() ==> (#[trigger] out@[k]).1 < parts@.len(),
        decreases parts.len() - i,
    {
        let ghost t = parts@.take(i + 1);
        assert(t.drop_last() =~= parts@.take(i as int));
        assert(t.last() == parts@[i as int]);
        match section_index(parts[i].name.as_str()) {
            Some(n) => {
                let ghost before = entries_parts(out@, parts@);
                let mut j: usize = out.len();
                while j > 0 && out[j - 1].0 > n
                    invariant
                        j <= out@.len(),
                        forall|m: int| j <= m < out@.len() ==> out@[m].0 > n,
                    decreases j,
                {
                    j = j - 1;
                }
                proof {
                    let x = (n, parts@[i as int]);
                    assert forall|m: int| j <= m < before.len() implies before[m].0 > x.0 by {
                        assert(before[m].0 == out@[m].0);
                    }
                    if j > 0 {
                        assert(before[j - 1].0 == out@[j - 1].0);
                    }
                    lemma_insert_split(before, x, j as int);
                }
                out.insert(j, (n, i));
                proof {
                    let x = (n, parts@[i as int]);
                    assert(entries_parts(out@, parts@) =~= before.take(j as int).push(x) + before.skip(j as int));
                    let sl = section_list(t);
                    assert(sl == section_list(parts@.take(i as int)).push(x));
                    assert(sl.drop_last() =~= section_list(parts@.take(i as int)));
                    assert(sort_by_number(sl) == insert_by_number(sort_by_number(sl.drop_last()), sl.last()));
                }
            },
            None => {
                proof {
                    assert(section_list(t) == section_list(parts@.take(i as int)));
                }
            },
        }
        i = i + 1;
    }
    assert(parts@.take(parts@.len() as int) =~= parts@);
    out
}

/// The renaming of a section's error: a malformed-document message gets
/// ` in <part name>` appended; other errors are unchanged.
pub open spec fn renamed_error(e0: DvcError, name: Seq<char>, e: DvcError) -> bool {
    match e0 {
        DvcError::Document(m) => e matches DvcError::Document(m2) && m2@ == m@ + " in "@ + name,
        _ => e == e0,
    }
}

/// Whether reading section `n` from `bytes` succeeds.
pub open spec fn section_ok(n: u32, bytes: Seq<u8>) -> bool {
    exists|s: Section| #[trigger] section_reading(n, bytes, Ok(s))
}

/// Whether `r` is what reading the header of parts `ps` gives: the
/// missing-header error without a `Contents/header.xml` part, else the
/// reading of the first such part's bytes.
pub open spec fn header_of_parts(ps: Seq<Part>, r: DvcResult<HeaderTables>) -> bool {
    match first_part(ps, "Contents/header.xml"@) {
        None => r matches Err(DvcError::Document(m)) && m@ == missing_header_message(),
        Some(p) => header_reading(p.bytes@, r),
    }
}

/// Whether `r` is what reading the sections of parts `ps` gives: each
/// section part in order read from its own bytes, or the first failure,
/// renamed, with every section before it read.
pub open spec fn sections_of_parts(ps: Seq<Part>, r: DvcResult<Vec<Section>>) -> bool {
    let ord = ordered_sections(ps);
    match r {
        Ok(v) => v@.len() == ord.len() && forall|k: int|
            0 <= k < v@.len() ==> section_reading(ord[k].0, ord[k].1.bytes@, Ok(#[trigger] v@[k])),
        Err(e) => exists|k: int, e0: DvcError|
            0 <= k < ord.len() && (forall|m: int| 0 <= m < k ==> section_ok(ord[m].0, #[trigger] ord[m].1.bytes@))
                && section_reading(ord[k].0, ord[k].1.bytes@, Err(e0)) && #[trigger] renamed_error(
                e0,
                ord[k].1.name@,
                e,
            ),
    }
}

/// The message for a container without a header part.
pub open spec fn missing_header_message() -> Seq<char> {
    "missing Contents/header.xml"@
}

/// One member as the ZIP reader sees it: whether it opens, whether it is
/// a directory, its decoded name and its data.
pub type ZipMember = (bool, bool, Option<Seq<char>>, Option<Seq<u8>>);

/// Whether a member can be unpacked: it opens, and unless it is a
/// directory its name decodes and its data reads.
pub open spec fn member_readable(m: ZipMember) -> bool {
    m.0 && (!m.1 ==> (m.2 is Some && m.3 is Some))
}

/// Whether the bytes are an archive whose members all unpack.
pub open spec fn zip_readable(bytes: Seq<u8>) -> bool {
    &&& zip_contents(bytes) is Some
    &&& forall|i: int| 0 <= i < zip_contents(bytes)->0.len() ==> member_readable(
        #[trigger] zip_contents(bytes)->0[i],
    )
}

/// The parts an archive's members give: every member that is not a
/// directory, as its name and data, in member order.
pub open spec fn member_parts(es: Seq<ZipMember>) -> Seq<(Seq<char>, Seq<u8>)>
    decreases es.len(),
{
    if es.len() == 0 {
        Seq::empty()
    } else if es.last().1 {
        member_parts(es.drop_last())
    } else {
        member_parts(es.drop_last()).push((es.last().2.unwrap(), es.last().3.unwrap()))
    }
}

/// The names and data of parts.
pub open spec fn part_views(ps: Seq<Part>) -> Seq<(Seq<char>, Seq<u8>)> {
    ps.map_values(|p: Part| (p.name@, p.bytes@))
}

impl HwpxArchive {
    /// Unpack an archive from its bytes: every member that is not a
    /// directory becomes a part, in archive order. It succeeds exactly
    /// when the ZIP reader opens the archive and unpacks every member.
    pub fn from_zip_bytes(bytes: Vec<u8>) -> (r: DvcResult<HwpxArchive>)
        ensures
            r is Ok <==> zip_readable(bytes@),
            r matches Err(e) ==> (e is Zip || e is Io),
            r matches Ok(a) ==> part_views(a.parts@) == member_parts(zip_contents(bytes@)->0),
    {
        let ghost input = bytes@;
        let mut z = match zip_open(bytes) {
            Ok(z) => z,
            Err(e) => {
                return Err(DvcError::Zip(e));
            },
        };
        let ghost es = zip_entries(z);
        let n = zip_len(&z);
        let mut parts: Vec<Part> = Vec::new();
        let mut i: usize = 0;
        assert(part_views(parts@) =~= member_parts(es.take(0)));
        while i < n
            invariant
                i <= n,
                n == es.len(),
                es == zip_entries(z),
                zip_contents(input) == Some(es),
                input == bytes@,
                part_views(parts@) == member_parts(es.take(i as int)),
                forall|j: int| 0 <= j < i ==> member_readable(#[trigger] es[j]),
            decreases n - i,
        {
            proof {
                assert(es.take(i + 1).drop_last() =~= es.take(i as int));
                assert(es.take(i + 1).last() == es[i as int]);
            }
            let is_dir = match zip_entry_is_dir(&mut z, i) {
                Ok(d) => d,
                Err(e) => {
                    assert(!member_readable(zip_contents(input)->0[i as int]));
                    return Err(DvcError::Zip(e));
                },
            };
            if !is_dir {
                let name = match zip_entry_name(&mut z, i) {
                    Ok(n) => n,
                    Err(e) => {
                        assert(!member_readable(zip_contents(input)->0[i as int]));
                        return Err(DvcError::Zip(e));
                    },
                };
                let data = match zip_entry_bytes(&mut z, i) {
                    Ok(Ok(b)) => b,
                    Ok(Err(e)) => {
                        assert(!member_readable(zip_contents(input)->0[i as int]));
                        return Err(DvcError::Io(e));
                    },
                    Err(e) => {
                        assert(!member_readable(zip_contents(input)->0[i as int]));
                        return Err(DvcError::Zip(e));
                    },
                };
                let p = Part { name, bytes: data };
                proof {
                    assert(part_views(parts@.push(p)) =~= part_views(parts@).push((p.name@, p.bytes@)));
                }
                parts.push(p);
            }
            i = i + 1;
        }
        assert(es.take(n as int) =~= es);
        Ok(HwpxArchive { parts })
    }

    /// Parse `Contents/header.xml`.
    pub fn read_header(&self) -> (r: DvcResult<HeaderTables>)
        ensures
            header_of_parts(self.parts@, r),
            r matches Ok(h) ==> header_wf(h),
    {
        match self.part("Contents/header.xml") {
            None => Err(DvcError::Document(String::from_str("missing Contents/header.xml"))),
            Some(p) => parse_header(p.bytes.as_slice()),
        }
    }

    /// Parse every `Contents/sectionN.xml` part, by `N`, ties in archive
    /// order. The first failure stops the reading; a malformed-document
    /// message then names the part.
    pub fn read_sections(&self) -> (r: DvcResult<Vec<Section>>)
        ensures
            sections_of_parts(self.parts@, r),
    {
        let entries = ordered_section_entries(&self.parts);
        let ghost ord = ordered_sections(self.parts@);
        let mut out: Vec<Section> = Vec::new();
        let mut k: usize = 0;
        while k < entries.len()
            invariant
                entries_parts(entries@, self.parts@) == ord,
                ord == ordered_sections(self.parts@),
                forall|m: int| 0 <= m < entries@.len() ==> (#[trigger] entries@[m]).1 < self.parts@.len(),
                k <= entries@.len(),
                out@.len() == k,
                forall|m: int| 0 <= m < k ==> section_reading(ord[m].0, ord[m].1.bytes@, Ok(#[trigger] out@[m])),
            decreases entries.len() - k,
        {
            let (n, pi) = entries[k];
            assert(ord[k as int] == (n, self.parts@[pi as int]));
            let part = &self.parts[pi];
            let r = parse_section(n, part.bytes.as_slice());
            match r {
                Ok(s) => {
                    out.push(s);
                    proof {
                        assert forall|m: int| 0 <= m < k + 1 implies section_reading(ord[m].0, ord[m].1.bytes@, Ok(#[trigger] out@[m])) by {
                            if m < k {
                                assert(out@[m] == out@.drop_last()[m]);
                            }
                        }
                    }
                },
                Err(e0) => {
                    let ghost g0 = e0;
                    let e = match e0 {
                        DvcError::Document(m) => {
                            let mut msg = m;
                            msg.append(" in ");
                            msg.append(part.name.as_str());
                            DvcError::Document(msg)
                        },
                        other => other,
                    };
                    proof {
                        assert(renamed_error(g0, ord[k as int].1.name@, e));
                        assert forall|m: int| 0 <= m < k implies section_ok(ord[m].0, #[trigger] ord[m].1.bytes@) by {
                            assert(section_reading(ord[m].0, ord[m].1.bytes@, Ok(out@[m])));
                        }
                    }
                    return Err(e);
                },
            }
            k = k + 1;
        }
        Ok(out)
    }

    /// The names of the parts, in archive order.
    pub fn part_names(&self) -> (r: Vec<&str>)
        ensures
            r@.len() == self.parts@.len(),
            forall|i: int| 0 <= i < r@.len() ==> (#[trigger] r@[i])@ == self.parts@[i].name@,
    {
        let mut out: Vec<&str> = Vec::new();
        let mut i: usize = 0;
        while i < self.parts.len()
            invariant
                i <= self.parts@.len(),
                out@.len() == i,
                forall|k: int| 0 <= k < i ==> (#[trigger] out@[k])@ == self.parts@[k].name@,
            decreases self.parts.len() - i,
        {
            out.push(self.parts[i].name.as_str());
            i = i + 1;
        }
        out
    }

    /// The first part called `name`.
    pub fn part(&self, name: &str) -> (r: Option<&Part>)
        ensures
            match r {
                Some(p) => first_part(self.parts@, name@) == Some(*p),
                None => first_part(self.parts@, name@) is None,
            },
    {
        let mut i: usize = 0;
        assert(self.parts@.skip(0) =~= self.parts@);
        while i < self.parts.len()
            invariant
                i <= self.parts@.len(),
                first_part(self.parts@, name@) == first_part(self.parts@.skip(i as int), name@),
            decreases self.parts.len() - i,
        {
            assert(self.parts@.skip(i as int)[0] == self.parts@[i as int]);
            if crate::text::str_eq(self.parts[i].name.as_str(), name) {
                return Some(&self.parts[i]);
            }
            assert(self.parts@.skip(i as int).drop_first() =~= self.parts@.skip(i + 1));
            i = i + 1;
        }
        None
    }

    /// Whether `Contents/content.hpf` declares a script: it is UTF-8
    /// text and one of its `href="..."` values contains `.js`.
    pub fn has_macro(&self) -> (r: bool)
        ensures
            r == parts_have_macro(self.parts@),
    {
        match self.part("Contents/content.hpf") {
            None => false,
            Some(p) => {
                if !is_utf8(p.bytes.as_slice()) {
                    return false;
                }
                scan_js_href(p.bytes.as_slice())
            },
        }
    }
}

/// Whether the parsed state of `d` is a reading of its archive: the
/// header and the sections read from their parts' bytes, and the run
/// stream built from them.
pub open spec fn parsed_from(d: Document) -> bool {
    &&& d.header is Some
    &&& header_of_parts(d.archive.parts@, Ok(d.header->0))
    &&& sections_of_parts(d.archive.parts@, Ok(d.sections))
    &&& exists|s: u32| default_style_choice(d.header->0, s) && run_views(d.run_type_infos@) == sections_runs(
        s,
        d.header->0.styles@,
        d.sections@,
    )
}

/// Whether `e` is the error parsing parts `ps` fails with: the header's,
/// or, with the header read, the sections'.
pub open spec fn parse_failed(ps: Seq<Part>, e: DvcError) -> bool {
    ||| header_of_parts(ps, Err(e))
    ||| (exists|h: HeaderTables| #[trigger] header_of_parts(ps, Ok(h))) && sections_of_parts(ps, Err(e))
}

impl Document {
    /// An unparsed document over an archive.
    pub fn from_archive(archive: HwpxArchive) -> (d: Document)
        ensures
            d.archive == archive,
            d.header is None,
            d.sections@.len() == 0,
            d.run_type_infos@.len() == 0,
    {
        Document { archive, header: None, sections: Vec::new(), run_type_infos: Vec::new() }
    }

    /// Parse the header and the sections and build the run stream. On
    /// failure the document is left as it was.
    pub fn parse(&mut self) -> (r: DvcResult<()>)
        ensures
            final(self).archive == old(self).archive,
            r is Ok ==> parsed_from(*final(self)),
            r is Ok ==> (final(self).header matches Some(h) && header_wf(h)),
            r is Err ==> *final(self) == *old(self),
            r matches Err(e) ==> parse_failed(old(self).archive.parts@, e),
    {
        let header = match self.archive.read_header() {
            Ok(h) => h,
            Err(e) => {
                return Err(e);
            },
        };
        let sections = match self.archive.read_sections() {
            Ok(s) => s,
            Err(e) => {
                return Err(e);
            },
        };
        let infos = build_run_type_infos(&header, sections.as_slice());
        self.header = Some(header);
        self.sections = sections;
        self.run_type_infos = infos;
        Ok(())
    }

    /// Whether the document's manifest declares a script.
    pub fn has_macro(&self) -> (r: bool)
        ensures
            r == parts_have_macro(self.archive.parts@),
    {
        self.archive.has_macro()
    }
}

} // verus!
