//! Structured vehicle data and its serialized form.
//!
//! A `Section` is one vehicle data module of the upstream page: a title and
//! a field table built by pairing header cells with data cells in document
//! order. A lookup's computed value is the JSON rendering of the section
//! list, or a fixed fallback sentence when the page showed no modules.

use vstd::prelude::*;
use vstd::string::*;

use crate::cache::flow_store;
use crate::cache::flow_value;

verus! {

/// One vehicle data module: a title and the field table extracted from it.
#[derive(Debug, PartialEq, Eq)]
pub struct Section {
    pub title: String,
    pub table_body: Vec<(String, String)>,
}

/// The mathematical image of a `Section`.
pub struct SectionData {
    pub title: Seq<char>,
    pub table_body: Seq<(Seq<char>, Seq<char>)>,
}

/// The texts a sequence of strings holds.
pub open spec fn texts_view(v: Seq<String>) -> Seq<Seq<char>> {
    v.map_values(|s: String| s@)
}

/// The texts a field table holds.
pub open spec fn body_view(b: Seq<(String, String)>) -> Seq<(Seq<char>, Seq<char>)> {
    b.map_values(|p: (String, String)| (p.0@, p.1@))
}

impl View for Section {
    type V = SectionData;

    open spec fn view(&self) -> SectionData {
        SectionData { title: self.title@, table_body: body_view(self.table_body@) }
    }
}

/// The images of a sequence of sections.
pub open spec fn sections_view(v: Seq<Section>) -> Seq<SectionData> {
    v.map_values(|s: Section| s@)
}

/// `body` with any entry for `label` removed, other entries kept in order.
pub open spec fn without_label(body: Seq<(Seq<char>, Seq<char>)>, label: Seq<char>) -> Seq<
    (Seq<char>, Seq<char>),
>
    decreases body.len(),
{
    if body.len() == 0 {
        Seq::empty()
    } else if body[0].0 == label {
        without_label(body.drop_first(), label)
    } else {
        seq![body[0]] + without_label(body.drop_first(), label)
    }
}

/// Storing one pair in a field table: a duplicate label overwrites, keeping
/// the latest value and moving the entry to the end.
pub open spec fn upserted(
    body: Seq<(Seq<char>, Seq<char>)>,
    label: Seq<char>,
    value: Seq<char>,
) -> Seq<(Seq<char>, Seq<char>)> {
    without_label(body, label).push((label, value))
}

/// The table left after pairing header cells with data cells in document
/// order, starting from `body`; a count mismatch truncates to the shorter
/// side.
pub open spec fn paired_into(
    body: Seq<(Seq<char>, Seq<char>)>,
    labels: Seq<Seq<char>>,
    values: Seq<Seq<char>>,
) -> Seq<(Seq<char>, Seq<char>)>
    decreases labels.len(),
{
    if labels.len() == 0 || values.len() == 0 {
        body
    } else {
        paired_into(
            upserted(body, labels[0], values[0]),
            labels.drop_first(),
            values.drop_first(),
        )
    }
}

/// The field table built from header cells and data cells.
pub open spec fn paired_body(labels: Seq<Seq<char>>, values: Seq<Seq<char>>) -> Seq<
    (Seq<char>, Seq<char>),
> {
    paired_into(Seq::empty(), labels, values)
}

proof fn lemma_without_label_push(
    body: Seq<(Seq<char>, Seq<char>)>,
    label: Seq<char>,
    p: (Seq<char>, Seq<char>),
)
    ensures
        without_label(body.push(p), label) == without_label(body, label) + (if p.0 == label {
            Seq::<(Seq<char>, Seq<char>)>::empty()
        } else {
            seq![p]
        }),
    decreases body.len(),
{
    if body.len() == 0 {
        assert(body.push(p)[0] == p);
        assert(body.push(p).drop_first() =~= Seq::<(Seq<char>, Seq<char>)>::empty());
        assert(without_label(Seq::<(Seq<char>, Seq<char>)>::empty(), label) == Seq::<
            (Seq<char>, Seq<char>),
        >::empty());
        assert(without_label(body.push(p), label) == without_label(
            body.push(p).drop_first(),
            label,
        ) || body.push(p)[0].0 != label);
        if p.0 == label {
            assert(without_label(body.push(p), label) =~= without_label(body, label) + Seq::<
                (Seq<char>, Seq<char>),
            >::empty());
        } else {
            assert(without_label(body.push(p), label) =~= without_label(body, label) + seq![p]);
        }
    } else {
        assert(body.push(p)[0] == body[0]);
        assert(body.push(p).drop_first() =~= body.drop_first().push(p));
        lemma_without_label_push(body.drop_first(), label, p);
        if p.0 == label {
            assert(without_label(body.push(p), label) =~= without_label(body, label) + Seq::<
                (Seq<char>, Seq<char>),
            >::empty());
        } else {
            assert(without_label(body.push(p), label) =~= without_label(body, label) + seq![p]);
        }
    }
}

/// Stores one pair, overwriting an entry with the same label.
fn upsert(body: Vec<(String, String)>, label: String, value: String) -> (out: Vec<(String, String)>)
    ensures
        body_view(out@) == upserted(body_view(body@), label@, value@),
{
    let ghost bv = body_view(body@);
    let mut out: Vec<(String, String)> = Vec::new();
    let mut i: usize = 0;
    while i < body.len()
        invariant
            i <= body@.len(),
            bv == body_view(body@),
            bv.len() == body@.len(),
            body_view(out@) == without_label(bv.take(i as int), label@),
        decreases body@.len() - i,
    {
        proof {
            assert(bv.take(i + 1) =~= bv.take(i as int).push(bv[i as int]));
            lemma_without_label_push(bv.take(i as int), label@, bv[i as int]);
            assert(bv[i as int] == (body@[i as int].0@, body@[i as int].1@));
        }
        if !(body[i].0 == label) {
            let pair = (body[i].0.clone(), body[i].1.clone());
            out.push(pair);
            proof {
                assert(body_view(out@) =~= without_label(bv.take(i as int), label@).push(
                    bv[i as int],
                ));
                assert(without_label(bv.take(i as int), label@).push(bv[i as int]) =~= without_label(
                    bv.take(i as int),
                    label@,
                ) + seq![bv[i as int]]);
            }
        } else {
            proof {
                assert(without_label(bv.take(i + 1), label@) =~= without_label(
                    bv.take(i as int),
                    label@,
                ));
            }
        }
        i = i + 1;
    }
    proof {
        assert(bv.take(body@.len() as int) =~= bv);
    }
    out.push((label, value));
    proof {
        assert(body_view(out@) =~= upserted(bv, label@, value@));
    }
    out
}

/// Builds the field table by pairing header cells with data cells in
/// document order; mismatched counts truncate to the shorter sequence and a
/// duplicate label overwrites.
pub fn pair_cells(labels: &Vec<String>, values: &Vec<String>) -> (body: Vec<(String, String)>)
    ensures
        body_view(body@) == paired_body(texts_view(labels@), texts_view(values@)),
{
    let ghost lv = texts_view(labels@);
    let ghost vv = texts_view(values@);
    let n: usize = if labels.len() <= values.len() {
        labels.len()
    } else {
        values.len()
    };
    let mut body: Vec<(String, String)> = Vec::new();
    let mut i: usize = 0;
    proof {
        assert(lv.skip(0) =~= lv);
        assert(vv.skip(0) =~= vv);
    }
    while i < n
        invariant
            i <= n,
            n <= labels@.len(),
            n <= values@.len(),
            n == if labels@.len() <= values@.len() {
                labels@.len()
            } else {
                values@.len()
            },
            lv == texts_view(labels@),
            vv == texts_view(values@),
            lv.len() == labels@.len(),
            vv.len() == values@.len(),
            paired_into(body_view(body@), lv.skip(i as int), vv.skip(i as int)) == paired_body(
                lv,
                vv,
            ),
        decreases n - i,
    {
        proof {
            assert(lv.skip(i as int)[0] == lv[i as int]);
            assert(vv.skip(i as int)[0] == vv[i as int]);
            assert(lv.skip(i as int).drop_first() =~= lv.skip(i + 1));
            assert(vv.skip(i as int).drop_first() =~= vv.skip(i + 1));
        }
        body = upsert(body, labels[i].clone(), values[i].clone());
        i = i + 1;
    }
    proof {
        if lv.len() <= vv.len() {
            assert(lv.skip(n as int).len() == 0);
        } else {
            assert(vv.skip(n as int).len() == 0);
        }
    }
    body
}

/// The title of a module: the first heading's text, or a fixed sentinel when
/// the module has none.
pub open spec fn title_or_default(title: Option<Seq<char>>) -> Seq<char> {
    match title {
        Some(t) => t,
        None => "No title"@,
    }
}

/// The image of an optional text.
pub open spec fn opt_text_view(t: Option<String>) -> Option<Seq<char>> {
    match t {
        Some(s) => Some(s@),
        None => None,
    }
}

/// Builds one section from a module's heading (if any) and its header and
/// data cells.
pub fn table_to_section(title: Option<String>, labels: &Vec<String>, values: &Vec<String>) -> (s:
    Section)
    ensures
        s@.title == title_or_default(opt_text_view(title)),
        s@.table_body == paired_body(texts_view(labels@), texts_view(values@)),
{
    let t: String = match title {
        Some(t) => t,
        None => String::from_str("No title"),
    };
    Section { title: t, table_body: pair_cells(labels, values) }
}

/// A hexadecimal digit, for the escape of a control character.
pub open spec fn hex_digit(n: int) -> char {
    if n == 0 { '0' }
    else if n == 1 { '1' }
    else if n == 2 { '2' }
    else if n == 3 { '3' }
    else if n == 4 { '4' }
    else if n == 5 { '5' }
    else if n == 6 { '6' }
    else if n == 7 { '7' }
    else if n == 8 { '8' }
    else if n == 9 { '9' }
    else if n == 10 { 'a' }
    else if n == 11 { 'b' }
    else if n == 12 { 'c' }
    else if n == 13 { 'd' }
    else if n == 14 { 'e' }
    else { 'f' }
}

/// JSON string escaping of one character: quote, backslash and the named
/// control characters get a two-character escape, any other control
/// character a \u00XX escape, everything else stands as it is.
pub open spec fn escaped_char(c: char) -> Seq<char> {
    if c == '"' { seq!['\\', '"'] }
    else if c == '\\' { seq!['\\', '\\'] }
    else if c == '\n' { seq!['\\', 'n'] }
    else if c == '\r' { seq!['\\', 'r'] }
    else if c == '\t' { seq!['\\', 't'] }
    else if (c as u32) < 32 {
        seq!['\\', 'u', '0', '0', hex_digit(c as u32 as int / 16), hex_digit(c as u32 as int % 16)]
    } else { seq![c] }
}

/// JSON string escaping of a text.
pub open spec fn escaped_text(s: Seq<char>) -> Seq<char>
    decreases s.len(),
{
    if s.len() == 0 {
        Seq::empty()
    } else {
        escaped_char(s[0]) + escaped_text(s.drop_first())
    }
}

/// A JSON string literal: the escaped text in double quotes.
pub open spec fn quoted(s: Seq<char>) -> Seq<char> {
    seq!['"'] + escaped_text(s) + seq!['"']
}

/// One field of the table as JSON: "label":"value".
pub open spec fn rendered_pair(p: (Seq<char>, Seq<char>)) -> Seq<char> {
    quoted(p.0) + seq![':'] + quoted(p.1)
}

/// The table's fields, comma-joined.
pub open spec fn joined_pairs(body: Seq<(Seq<char>, Seq<char>)>) -> Seq<char>
    decreases body.len(),
{
    if body.len() == 0 {
        Seq::empty()
    } else if body.len() == 1 {
        rendered_pair(body[0])
    } else {
        rendered_pair(body[0]) + seq![','] + joined_pairs(body.drop_first())
    }
}

/// One section as a JSON object with its title and its field table.
pub open spec fn rendered_section(s: SectionData) -> Seq<char> {
    seq!['{', '"', 't', 'i', 't', 'l', 'e', '"', ':'] + quoted(s.title) + seq![',', '"', 't', 'a', 'b', 'l', 'e', '_', 'b', 'o', 'd', 'y', '"', ':', '{'] + joined_pairs(s.table_body) + seq!['}', '}']
}

/// The sections, comma-joined.
pub open spec fn joined_sections(ss: Seq<SectionData>) -> Seq<char>
    decreases ss.len(),
{
    if ss.len() == 0 {
        Seq::empty()
    } else if ss.len() == 1 {
        rendered_section(ss[0])
    } else {
        rendered_section(ss[0]) + seq![','] + joined_sections(ss.drop_first())
    }
}

/// The serialized section list: a JSON array of {title, table_body} objects.
pub open spec fn rendered_sections(ss: Seq<SectionData>) -> Seq<char> {
    seq!['['] + joined_sections(ss) + seq![']']
}

proof fn lemma_escaped_push(s: Seq<char>, c: char)
    ensures
        escaped_text(s.push(c)) == escaped_text(s) + escaped_char(c),
    decreases s.len(),
{
    if s.len() == 0 {
        assert(s.push(c)[0] == c);
        assert(s.push(c).drop_first() =~= Seq::<char>::empty());
        assert(escaped_text(Seq::<char>::empty()) == Seq::<char>::empty());
        assert(escaped_text(s.push(c)) =~= escaped_text(s) + escaped_char(c));
    } else {
        assert(s.push(c)[0] == s[0]);
        assert(s.push(c).drop_first() =~= s.drop_first().push(c));
        lemma_escaped_push(s.drop_first(), c);
        assert(escaped_text(s.push(c)) =~= escaped_text(s) + escaped_char(c));
    }
}

proof fn lemma_joined_pairs_push(s: Seq<(Seq<char>, Seq<char>)>, p: (Seq<char>, Seq<char>))
    ensures
        joined_pairs(s.push(p)) == if s.len() == 0 {
            rendered_pair(p)
        } else {
            joined_pairs(s) + seq![','] + rendered_pair(p)
        },
    decreases s.len(),
{
    if s.len() == 0 {
        assert(s.push(p)[0] == p);
    } else if s.len() == 1 {
        assert(s.push(p)[0] == s[0]);
        assert(s.push(p).drop_first() =~= s.drop_first().push(p));
        lemma_joined_pairs_push(s.drop_first(), p);
        assert(joined_pairs(s.push(p)) =~= joined_pairs(s) + seq![','] + rendered_pair(p));
    } else {
        assert(s.push(p)[0] == s[0]);
        assert(s.push(p).drop_first() =~= s.drop_first().push(p));
        lemma_joined_pairs_push(s.drop_first(), p);
        assert(joined_pairs(s.push(p)) =~= joined_pairs(s) + seq![','] + rendered_pair(p));
    }
}

proof fn lemma_joined_sections_push(ss: Seq<SectionData>, x: SectionData)
    ensures
        joined_sections(ss.push(x)) == if ss.len() == 0 {
            rendered_section(x)
        } else {
            joined_sections(ss) + seq![','] + rendered_section(x)
        },
    decreases ss.len(),
{
    if ss.len() == 0 {
        assert(ss.push(x)[0] == x);
    } else {
        assert(ss.push(x)[0] == ss[0]);
        assert(ss.push(x).drop_first() =~= ss.drop_first().push(x));
        lemma_joined_sections_push(ss.drop_first(), x);
        assert(joined_sections(ss.push(x)) =~= joined_sections(ss) + seq![','] + rendered_section(
            x,
        ));
    }
}

/// Relies on std's `FromIterator<char> for String` through `collect`: the
/// built string holds exactly the given characters in order.
#[verifier::external_body]
fn chars_to_string(cs: &Vec<char>) -> (r: String)
    ensures
        r@ == cs@,
{
    cs.iter().collect()
}

fn hex_digit_char(n: u32) -> (c: char)
    requires
        n < 16,
    ensures
        c == hex_digit(n as int),
{
    match n {
        0 => '0',
        1 => '1',
        2 => '2',
        3 => '3',
        4 => '4',
        5 => '5',
        6 => '6',
        7 => '7',
        8 => '8',
        9 => '9',
        10 => 'a',
        11 => 'b',
        12 => 'c',
        13 => 'd',
        14 => 'e',
        _ => 'f',
    }
}

fn push_escaped_char(out: &mut Vec<char>, c: char)
    ensures
        final(out)@ == old(out)@ + escaped_char(c),
{
    if c == '"' {
        out.push('\\');
        out.push('"');
    } else if c == '\\' {
        out.push('\\');
        out.push('\\');
    } else if c == '\n' {
        out.push('\\');
        out.push('n');
    } else if c == '\r' {
        out.push('\\');
        out.push('r');
    } else if c == '\t' {
        out.push('\\');
        out.push('t');
    } else if (c as u32) < 32 {
        out.push('\\');
        out.push('u');
        out.push('0');
        out.push('0');
        let hi: char = hex_digit_char((c as u32) / 16);
        out.push(hi);
        let lo: char = hex_digit_char((c as u32) % 16);
        out.push(lo);
        proof {
            assert(out@ =~= old(out)@ + escaped_char(c));
        }
    } else {
        out.push(c);
    }
    proof {
        assert(out@ =~= old(out)@ + escaped_char(c));
    }
}

fn push_quoted(out: &mut Vec<char>, s: &String)
    ensures
        final(out)@ == old(out)@ + quoted(s@),
{
    out.push('"');
    let text: &str = s.as_str();
    let n: usize = text.unicode_len();
    let mut i: usize = 0;
    proof {
        assert(s@.take(0) =~= Seq::<char>::empty());
        assert(out@ =~= old(out)@ + seq!['"'] + escaped_text(s@.take(0)));
    }
    while i < n
        invariant
            i <= n,
            n == s@.len(),
            text@ == s@,
            out@ == old(out)@ + seq!['"'] + escaped_text(s@.take(i as int)),
        decreases n - i,
    {
        let c: char = text.get_char(i);
        push_escaped_char(out, c);
        proof {
            assert(s@.take(i + 1) =~= s@.take(i as int).push(s@[i as int]));
            lemma_escaped_push(s@.take(i as int), s@[i as int]);
            assert(out@ =~= old(out)@ + seq!['"'] + escaped_text(s@.take(i + 1)));
        }
        i = i + 1;
    }
    proof {
        assert(s@.take(n as int) =~= s@);
    }
    out.push('"');
    proof {
        assert(out@ =~= old(out)@ + quoted(s@));
    }
}

fn push_pairs(out: &mut Vec<char>, body: &Vec<(String, String)>)
    ensures
        final(out)@ == old(out)@ + joined_pairs(body_view(body@)),
{
    let ghost bv = body_view(body@);
    let mut i: usize = 0;
    proof {
        assert(bv.take(0) =~= Seq::<(Seq<char>, Seq<char>)>::empty());
        assert(out@ =~= old(out)@ + joined_pairs(bv.take(0)));
    }
    while i < body.len()
        invariant
            i <= body@.len(),
            bv == body_view(body@),
            bv.len() == body@.len(),
            out@ == old(out)@ + joined_pairs(bv.take(i as int)),
        decreases body@.len() - i,
    {
        if i > 0 {
            out.push(',');
        }
        push_quoted(out, &body[i].0);
        out.push(':');
        push_quoted(out, &body[i].1);
        proof {
            assert(bv[i as int] == (body@[i as int].0@, body@[i as int].1@));
            assert(bv.take(i + 1) =~= bv.take(i as int).push(bv[i as int]));
            lemma_joined_pairs_push(bv.take(i as int), bv[i as int]);
            assert(out@ =~= old(out)@ + joined_pairs(bv.take(i + 1)));
        }
        i = i + 1;
    }
    proof {
        assert(bv.take(body@.len() as int) =~= bv);
    }
}

fn push_section(out: &mut Vec<char>, s: &Section)
    ensures
        final(out)@ == old(out)@ + rendered_section(s@),
{
    out.push('{');
    out.push('"');
    out.push('t');
    out.push('i');
    out.push('t');
    out.push('l');
    out.push('e');
    out.push('"');
    out.push(':');
    push_quoted(out, &s.title);
    out.push(',');
    out.push('"');
    out.push('t');
    out.push('a');
    out.push('b');
    out.push('l');
    out.push('e');
    out.push('_');
    out.push('b');
    out.push('o');
    out.push('d');
    out.push('y');
    out.push('"');
    out.push(':');
    out.push('{');
    push_pairs(out, &s.table_body);
    out.push('}');
    out.push('}');
    proof {
        assert(out@ =~= old(out)@ + rendered_section(s@));
    }
}

/// Renders the section list as a JSON array of {title, table_body} objects,
/// fields and sections in their given order.
pub fn render_sections(sections: &Vec<Section>) -> (r: String)
    ensures
        r@ == rendered_sections(sections_view(sections@)),
{
    let ghost sv = sections_view(sections@);
    let mut out: Vec<char> = Vec::new();
    out.push('[');
    let mut i: usize = 0;
    proof {
        assert(sv.take(0) =~= Seq::<SectionData>::empty());
        assert(out@ =~= seq!['['] + joined_sections(sv.take(0)));
    }
    while i < sections.len()
        invariant
            i <= sections@.len(),
            sv == sections_view(sections@),
            sv.len() == sections@.len(),
            out@ == seq!['['] + joined_sections(sv.take(i as int)),
        decreases sections@.len() - i,
    {
        if i > 0 {
            out.push(',');
        }
        push_section(&mut out, &sections[i]);
        proof {
            assert(sv[i as int] == sections@[i as int]@);
            assert(sv.take(i + 1) =~= sv.take(i as int).push(sv[i as int]));
            lemma_joined_sections_push(sv.take(i as int), sv[i as int]);
            assert(out@ =~= seq!['['] + joined_sections(sv.take(i + 1)));
        }
        i = i + 1;
    }
    proof {
        assert(sv.take(sections@.len() as int) =~= sv);
    }
    out.push(']');
    proof {
        assert(out@ =~= rendered_sections(sv));
    }
    chars_to_string(&out)
}

/// The fixed fallback sentence for a page with no vehicle data modules.
pub open spec fn fallback_text() -> Seq<char> {
    "No such registration number or API Timeout. Please try again later.\n"@
}

/// The text served (and cached) when the upstream page shows no vehicle data
/// modules: a negative lookup is a valid, cacheable outcome, not an error.
pub fn fallback_message() -> (r: String)
    ensures
        r@ == fallback_text(),
{
    String::from_str("No such registration number or API Timeout. Please try again later.\n")
}

/// The computed value for a key: the serialized section list, or the fixed
/// fallback sentence when the page showed no vehicle data modules.
pub fn sections_to_text(sections: &Vec<Section>) -> (r: String)
    ensures
        sections@.len() == 0 ==> r@ == fallback_text(),
        sections@.len() > 0 ==> r@ == rendered_sections(sections_view(sections@)),
{
    if sections.len() == 0 {
        fallback_message()
    } else {
        render_sections(sections)
    }
}

proof fn lemma_without_label_absent(body: Seq<(Seq<char>, Seq<char>)>, label: Seq<char>)
    requires
        forall|b: int| 0 <= b < body.len() ==> body[b].0 != label,
    ensures
        without_label(body, label) == body,
    decreases body.len(),
{
    if body.len() > 0 {
        lemma_without_label_absent(body.drop_first(), label);
        assert(seq![body[0]] + body.drop_first() =~= body);
    }
}

proof fn lemma_paired_into_append(
    body: Seq<(Seq<char>, Seq<char>)>,
    labels: Seq<Seq<char>>,
    values: Seq<Seq<char>>,
)
    requires
        forall|i: int, j: int| 0 <= i < j < labels.len() ==> labels[i] != labels[j],
        forall|b: int, i: int|
            0 <= b < body.len() && 0 <= i < labels.len() ==> body[b].0 != labels[i],
    ensures
        paired_into(body, labels, values).len() == body.len() + (if labels.len() <= values.len() {
            labels.len()
        } else {
            values.len()
        }),
        forall|k: int|
            0 <= k < body.len() ==> paired_into(body, labels, values)[k] == body[k],
        forall|i: int|
            body.len() <= i < paired_into(body, labels, values).len() ==> paired_into(
                body,
                labels,
                values,
            )[i] == (labels[i - body.len()], values[i - body.len()]),
    decreases labels.len(),
{
    if labels.len() == 0 || values.len() == 0 {
    } else {
        lemma_without_label_absent(body, labels[0]);
        let grown = body.push((labels[0], values[0]));
        assert(upserted(body, labels[0], values[0]) == grown);
        lemma_paired_into_append(grown, labels.drop_first(), values.drop_first());
        let rest = paired_into(grown, labels.drop_first(), values.drop_first());
        assert(paired_into(body, labels, values) == rest);
        assert forall|k: int| 0 <= k < body.len() implies rest[k] == body[k] by {
            assert(rest[k] == grown[k]);
        }
        assert forall|i: int|
            body.len() <= i < rest.len() implies rest[i] == (
            labels[i - body.len()],
            values[i - body.len()],
            ) by {
            if i == body.len() {
                assert(rest[i] == grown[i]);
            } else {
                assert(rest[i] == (
                    labels.drop_first()[i - grown.len()],
                    values.drop_first()[i - grown.len()],
                ));
            }
        }
    }
}

/// Parse pairing: with pairwise distinct header labels, pairing N header
/// cells with M data cells yields exactly the shorter count of entries, the
/// i-th entry holding the i-th label and the i-th value, in document order.
pub proof fn lemma_parse_pairing(labels: Seq<Seq<char>>, values: Seq<Seq<char>>)
    requires
        forall|i: int, j: int| 0 <= i < j < labels.len() ==> labels[i] != labels[j],
    ensures
        paired_body(labels, values).len() == if labels.len() <= values.len() {
            labels.len()
        } else {
            values.len()
        },
        forall|i: int|
            0 <= i < paired_body(labels, values).len() ==> paired_body(labels, values)[i] == (
            labels[i],
            values[i],
            ),
{
    lemma_paired_into_append(Seq::empty(), labels, values);
}

/// Zero-module fallback: the fallback sentence is a successful value and is
/// cacheable like any other — stored on a cold key, it is what every later
/// lookup of that key serves, whatever that lookup's own computation would
/// have produced.
pub proof fn lemma_fallback_cacheable(
    m: Map<Seq<char>, Seq<char>>,
    k: Seq<char>,
    later: Result<Seq<char>, Seq<char>>,
)
    requires
        !m.contains_key(k),
    ensures
        flow_value(m, k, Ok(fallback_text())) == Ok::<Seq<char>, Seq<char>>(fallback_text()),
        flow_value(flow_store(m, k, Ok(fallback_text())), k, later) == Ok::<
            Seq<char>,
            Seq<char>,
        >(fallback_text()),
{
}

} // verus!
