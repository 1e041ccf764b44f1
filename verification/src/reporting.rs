//! Report rendering: templated queries resolved through a fixed alias
//! table, and rectangular query results rendered into the export
//! formats — worksheet text, delimited text with comma-as-decimal
//! localisation, JSON, and minimally-escaping XML. Writing the
//! rendered bytes to files is the calling program's business; the
//! delimited-text encoding itself is done by an outside writer.

use vstd::prelude::*;

use crate::config::PdwConfig;
use crate::database::{DatabaseManager, Datum, datum_mat_view, join2};
use crate::money::dot_to_comma;
use crate::error::{PdwError, ReportError};
use crate::text::{
    chars_string,
    push_chars,
    push_str_chars,
    spec_int_text,
    i64_to_chars,
    str_chars,
};

verus! {

/// Templated-query configuration: the conditional pivot-history group
/// and the standard group, in file order.
#[derive(Clone, Debug)]
pub struct QueryConfig {
    pub queries_gera_hist: Vec<QueryDefinition>,
    pub queries_padrao: Vec<QueryDefinition>,
}

/// One templated query and the sheet it renders to.
#[derive(Clone, Debug)]
pub struct QueryDefinition {
    pub sql: String,
    pub sheet_name: String,
}

/// What one character escapes to in XML text.
pub open spec fn xml_esc_char(c: char) -> Seq<char> {
    if c == '&' {
        seq!['&', 'a', 'm', 'p', ';']
    } else if c == '<' {
        seq!['&', 'l', 't', ';']
    } else if c == '>' {
        seq!['&', 'g', 't', ';']
    } else if c == '"' {
        seq!['&', 'q', 'u', 'o', 't', ';']
    } else if c == '\'' {
        seq!['&', 'a', 'p', 'o', 's', ';']
    } else {
        seq![c]
    }
}

/// Text with the five XML special characters escaped.
pub open spec fn spec_xml_escape(s: Seq<char>) -> Seq<char>
    decreases s.len(),
{
    if s.len() == 0 {
        Seq::empty()
    } else {
        xml_esc_char(s[0]) + spec_xml_escape(s.drop_first())
    }
}

/// The inverse reading: each of the five entities becomes its
/// character; any other text stands.
pub open spec fn spec_xml_unescape(s: Seq<char>) -> Seq<char>
    decreases s.len(),
{
    if s.len() == 0 {
        Seq::empty()
    } else if s.len() >= 5 && s.subrange(0, 5) == seq!['&', 'a', 'm', 'p', ';'] {
        seq!['&'] + spec_xml_unescape(s.skip(5))
    } else if s.len() >= 4 && s.subrange(0, 4) == seq!['&', 'l', 't', ';'] {
        seq!['<'] + spec_xml_unescape(s.skip(4))
    } else if s.len() >= 4 && s.subrange(0, 4) == seq!['&', 'g', 't', ';'] {
        seq!['>'] + spec_xml_unescape(s.skip(4))
    } else if s.len() >= 6 && s.subrange(0, 6) == seq!['&', 'q', 'u', 'o', 't', ';'] {
        seq!['"'] + spec_xml_unescape(s.skip(6))
    } else if s.len() >= 6 && s.subrange(0, 6) == seq!['&', 'a', 'p', 'o', 's', ';'] {
        seq!['\''] + spec_xml_unescape(s.skip(6))
    } else {
        seq![s[0]] + spec_xml_unescape(s.drop_first())
    }
}

/// Law: XML escaping loses nothing — reading the escaped text back
/// yields the original, for every text.
pub proof fn lemma_xml_escape_round_trip(s: Seq<char>)
    ensures
        spec_xml_unescape(spec_xml_escape(s)) == s,
    decreases s.len(),
{
    if s.len() == 0 {
    } else {
        let c = s[0];
        let rest = spec_xml_escape(s.drop_first());
        let e = spec_xml_escape(s);
        assert(e == xml_esc_char(c) + rest);
        lemma_xml_escape_round_trip(s.drop_first());
        if c == '&' {
            assert(e.subrange(0, 5) =~= seq!['&', 'a', 'm', 'p', ';']);
            assert(e.skip(5) =~= rest);
            assert(seq!['&'] + s.drop_first() =~= s);
        } else if c == '<' {
            assert(e.len() >= 5 ==> e.subrange(0, 5) != seq!['&', 'a', 'm', 'p', ';']) by {
                if e.len() >= 5 {
                    assert(e[1] == 'l');
                }
            }
            assert(e.subrange(0, 4) =~= seq!['&', 'l', 't', ';']);
            assert(e.skip(4) =~= rest);
            assert(seq!['<'] + s.drop_first() =~= s);
        } else if c == '>' {
            assert(e.len() >= 5 ==> e.subrange(0, 5) != seq!['&', 'a', 'm', 'p', ';']) by {
                if e.len() >= 5 {
                    assert(e[1] == 'g');
                }
            }
            assert(e.subrange(0, 4) =~= seq!['&', 'g', 't', ';']);
            assert(e.skip(4) =~= rest);
            assert(seq!['>'] + s.drop_first() =~= s);
        } else if c == '"' {
            assert(e.len() >= 5 ==> e.subrange(0, 5) != seq!['&', 'a', 'm', 'p', ';']) by {
                if e.len() >= 5 {
                    assert(e[1] == 'q');
                }
            }
            assert(e.len() >= 4 ==> e.subrange(0, 4) != seq!['&', 'l', 't', ';']) by {
                if e.len() >= 4 {
                    assert(e[1] == 'q');
                }
            }
            assert(e.len() >= 4 ==> e.subrange(0, 4) != seq!['&', 'g', 't', ';']) by {
                if e.len() >= 4 {
                    assert(e[1] == 'q');
                }
            }
            assert(e.subrange(0, 6) =~= seq!['&', 'q', 'u', 'o', 't', ';']);
            assert(e.skip(6) =~= rest);
            assert(seq!['"'] + s.drop_first() =~= s);
        } else if c == '\'' {
            assert(e.len() >= 5 ==> e.subrange(0, 5) != seq!['&', 'a', 'm', 'p', ';']) by {
                if e.len() >= 5 {
                    assert(e[2] == 'p');
                }
            }
            assert(e.len() >= 4 ==> e.subrange(0, 4) != seq!['&', 'l', 't', ';']) by {
                if e.len() >= 4 {
                    assert(e[1] == 'a');
                }
            }
            assert(e.len() >= 4 ==> e.subrange(0, 4) != seq!['&', 'g', 't', ';']) by {
                if e.len() >= 4 {
                    assert(e[1] == 'a');
                }
            }
            assert(e.len() >= 6 ==> e.subrange(0, 6) != seq!['&', 'q', 'u', 'o', 't', ';']) by {
                if e.len() >= 6 {
                    assert(e[1] == 'a');
                }
            }
            assert(e.subrange(0, 6) =~= seq!['&', 'a', 'p', 'o', 's', ';']);
            assert(e.skip(6) =~= rest);
            assert(seq!['\''] + s.drop_first() =~= s);
        } else {
            assert(e == seq![c] + rest);
            assert(e[0] == c);
            assert(e.len() >= 5 ==> e.subrange(0, 5)[0] == c);
            assert(e.len() >= 4 ==> e.subrange(0, 4)[0] == c);
            assert(e.len() >= 6 ==> e.subrange(0, 6)[0] == c);
            assert(e.drop_first() =~= rest);
            assert(seq![c] + s.drop_first() =~= s);
        }
    }
}

/// Escapes the XML special characters.
pub fn xml_escape(input: &str) -> (r: String)
    ensures
        r@ == spec_xml_escape(input@),
{
    let cs = str_chars(input);
    let mut v: Vec<char> = Vec::new();
    let mut i: usize = 0;
    proof {
        assert(cs@.skip(0) =~= cs@);
        assert(v@ + spec_xml_escape(cs@) =~= spec_xml_escape(cs@));
    }
    while i < cs.len()
        invariant
            0 <= i <= cs@.len(),
            cs@ == input@,
            spec_xml_escape(input@) == v@ + spec_xml_escape(cs@.skip(i as int)),
        decreases cs@.len() - i,
    {
        let ghost rest = cs@.skip(i as int);
        proof {
            assert(rest[0] == cs@[i as int]);
            assert(rest.drop_first() =~= cs@.skip(i + 1));
        }
        let ghost pre = v@;
        let c = cs[i];
        if c == '&' {
            push_str_chars(&mut v, "&amp;");
            proof {
                reveal_strlit("&amp;");
                assert("&amp;"@ =~= xml_esc_char(rest[0]));
            }
        } else if c == '<' {
            push_str_chars(&mut v, "&lt;");
            proof {
                reveal_strlit("&lt;");
                assert("&lt;"@ =~= xml_esc_char(rest[0]));
            }
        } else if c == '>' {
            push_str_chars(&mut v, "&gt;");
            proof {
                reveal_strlit("&gt;");
                assert("&gt;"@ =~= xml_esc_char(rest[0]));
            }
        } else if c == '"' {
            push_str_chars(&mut v, "&quot;");
            proof {
                reveal_strlit("&quot;");
                assert("&quot;"@ =~= xml_esc_char(rest[0]));
            }
        } else if c == '\'' {
            push_str_chars(&mut v, "&apos;");
            proof {
                reveal_strlit("&apos;");
                assert("&apos;"@ =~= xml_esc_char(rest[0]));
            }
        } else {
            v.push(c);
            assert(v@ =~= pre + xml_esc_char(rest[0]));
        }
        i = i + 1;
    }
    proof {
        assert(cs@.skip(cs@.len() as int) =~= Seq::<char>::empty());
        assert(v@ + Seq::<char>::empty() =~= v@);
    }
    chars_string(&v)
}

/// The worksheet text of one result value: text verbatim, integers
/// and reals in decimal, null empty.
pub open spec fn spec_sheet_field(d: Datum) -> Seq<char> {
    match d {
        Datum::Null => Seq::<char>::empty(),
        Datum::Int(i) => spec_int_text(i as int),
        Datum::Real(t) => t@,
        Datum::Text(s) => s@,
    }
}

/// The delimited-text field of one result value: as the worksheet
/// text, but numeric values take the comma as decimal separator.
pub open spec fn spec_csv_field(d: Datum) -> Seq<char> {
    match d {
        Datum::Null => Seq::<char>::empty(),
        Datum::Int(i) => spec_int_text(i as int),
        Datum::Real(t) => t@.map_values(|c: char| dot_to_comma(c)),
        Datum::Text(s) => s@,
    }
}

/// The worksheet texts of a whole result set, cell by cell.
pub open spec fn spec_sheet_fields(m: Seq<Seq<Datum>>) -> Seq<Seq<Seq<char>>> {
    m.map_values(|r: Seq<Datum>| r.map_values(|d: Datum| spec_sheet_field(d)))
}

/// The delimited-text fields of a whole result set, cell by cell.
pub open spec fn spec_csv_fields(m: Seq<Seq<Datum>>) -> Seq<Seq<Seq<char>>> {
    m.map_values(|r: Seq<Datum>| r.map_values(|d: Datum| spec_csv_field(d)))
}

fn datum_sheet_text(d: &Datum) -> (r: String)
    ensures
        r@ == spec_sheet_field(*d),
{
    match d {
        Datum::Null => String::new(),
        Datum::Int(i) => {
            let cs = i64_to_chars(*i);
            chars_string(&cs)
        },
        Datum::Real(t) => t.clone(),
        Datum::Text(s) => s.clone(),
    }
}

fn datum_csv_text(d: &Datum) -> (r: String)
    ensures
        r@ == spec_csv_field(*d),
{
    match d {
        Datum::Null => String::new(),
        Datum::Int(i) => {
            let cs = i64_to_chars(*i);
            chars_string(&cs)
        },
        Datum::Real(t) => {
            let cs = str_chars(t.as_str());
            let mut v: Vec<char> = Vec::new();
            let mut i: usize = 0;
            while i < cs.len()
                invariant
                    0 <= i <= cs@.len(),
                    cs@ == t@,
                    v@ =~= cs@.subrange(0, i as int).map_values(|c: char| dot_to_comma(c)),
                decreases cs@.len() - i,
            {
                let c = cs[i];
                if c == '.' {
                    v.push(',');
                } else {
                    v.push(c);
                }
                proof {
                    assert(v@ =~= cs@.subrange(0, i + 1).map_values(
                        |c: char| dot_to_comma(c),
                    ));
                }
                i = i + 1;
            }
            proof {
                assert(cs@.subrange(0, cs@.len() as int) =~= cs@);
            }
            chars_string(&v)
        },
        Datum::Text(s) => s.clone(),
    }
}

/// The rows of a result set as worksheet text, cell by cell.
pub fn render_sheet_rows(rows: &Vec<Vec<Datum>>) -> (r: Vec<Vec<String>>)
    ensures
        r@.len() == rows@.len(),
        forall|i: int| 0 <= i < r@.len() ==> (#[trigger] r@[i])@.len() == rows@[i]@.len(),
        forall|i: int, j: int|
            0 <= i < r@.len() && 0 <= j < r@[i]@.len() ==> (#[trigger] r@[i]@[j])@
                == spec_sheet_field(rows@[i]@[j]),
        text_rows_view(r@) == spec_sheet_fields(datum_mat_view(rows@)),
{
    let mut r: Vec<Vec<String>> = Vec::new();
    let mut i: usize = 0;
    while i < rows.len()
        invariant
            0 <= i <= rows@.len(),
            r@.len() == i,
            forall|k: int| 0 <= k < i ==> (#[trigger] r@[k])@.len() == rows@[k]@.len(),
            forall|k: int, j: int|
                0 <= k < i && 0 <= j < r@[k]@.len() ==> (#[trigger] r@[k]@[j])@
                    == spec_sheet_field(rows@[k]@[j]),
        decreases rows@.len() - i,
    {
        let row = &rows[i];
        let mut out: Vec<String> = Vec::new();
        let mut j: usize = 0;
        while j < row.len()
            invariant
                0 <= j <= row@.len(),
                out@.len() == j,
                forall|k: int|
                    0 <= k < j ==> (#[trigger] out@[k])@ == spec_sheet_field(row@[k]),
            decreases row@.len() - j,
        {
            out.push(datum_sheet_text(&row[j]));
            j = j + 1;
        }
        r.push(out);
        i = i + 1;
    }
    proof {
        let tv = text_rows_view(r@);
        let sf = spec_sheet_fields(datum_mat_view(rows@));
        assert forall|k: int| 0 <= k < tv.len() implies #[trigger] tv[k] == sf[k] by {
            assert(tv[k].len() == r@[k]@.len());
            assert(sf[k].len() == rows@[k]@.len());
            assert forall|j: int| 0 <= j < tv[k].len() implies #[trigger] tv[k][j] == sf[k][j]
                by {
                assert(tv[k][j] == r@[k]@[j]@);
                assert(sf[k][j] == spec_sheet_field(rows@[k]@[j]));
            }
            assert(tv[k] =~= sf[k]);
        }
        assert(tv =~= sf);
    }
    r
}

/// A hexadecimal digit character.
pub open spec fn hex_char(d: int) -> char {
    if d == 10 {
        'a'
    } else if d == 11 {
        'b'
    } else if d == 12 {
        'c'
    } else if d == 13 {
        'd'
    } else if d == 14 {
        'e'
    } else if d == 15 {
        'f'
    } else {
        crate::text::digit_char(d)
    }
}

/// What one character escapes to inside a JSON string: the quote and
/// backslash take a backslash, the common control characters their
/// short escapes, other control characters the four-digit form.
pub open spec fn json_esc_char(c: char) -> Seq<char> {
    if c == '"' {
        seq!['\\', '"']
    } else if c == '\\' {
        seq!['\\', '\\']
    } else if c == '\n' {
        seq!['\\', 'n']
    } else if c == '\r' {
        seq!['\\', 'r']
    } else if c == '\t' {
        seq!['\\', 't']
    } else if (c as u32) < 32 {
        seq!['\\', 'u', '0', '0', hex_char(((c as u32) / 16) as int), hex_char(((c as u32) % 16) as int)]
    } else {
        seq![c]
    }
}

/// Text with JSON string escaping applied.
pub open spec fn spec_json_escape(s: Seq<char>) -> Seq<char>
    decreases s.len(),
{
    if s.len() == 0 {
        Seq::empty()
    } else {
        json_esc_char(s[0]) + spec_json_escape(s.drop_first())
    }
}

/// The value of a hexadecimal digit character.
pub open spec fn hex_val(c: char) -> int {
    if c == 'a' {
        10
    } else if c == 'b' {
        11
    } else if c == 'c' {
        12
    } else if c == 'd' {
        13
    } else if c == 'e' {
        14
    } else if c == 'f' {
        15
    } else {
        crate::text::digit_val(c)
    }
}

/// The inverse reading of a JSON string body: each escape becomes its
/// character; any other text stands.
pub open spec fn spec_json_unescape(s: Seq<char>) -> Seq<char>
    decreases s.len(),
{
    if s.len() == 0 {
        Seq::empty()
    } else if s[0] == '\\' && s.len() >= 2 {
        if s[1] == '"' {
            seq!['"'] + spec_json_unescape(s.skip(2))
        } else if s[1] == '\\' {
            seq!['\\'] + spec_json_unescape(s.skip(2))
        } else if s[1] == 'n' {
            seq!['\n'] + spec_json_unescape(s.skip(2))
        } else if s[1] == 'r' {
            seq!['\r'] + spec_json_unescape(s.skip(2))
        } else if s[1] == 't' {
            seq!['\t'] + spec_json_unescape(s.skip(2))
        } else if s[1] == 'u' && s.len() >= 6 && s[2] == '0' && s[3] == '0' {
            seq![(((hex_val(s[4]) * 16 + hex_val(s[5])) as u32) as char)] + spec_json_unescape(
                s.skip(6),
            )
        } else {
            seq![s[0]] + spec_json_unescape(s.drop_first())
        }
    } else {
        seq![s[0]] + spec_json_unescape(s.drop_first())
    }
}

/// Law: JSON string escaping loses nothing — reading the escaped text
/// back yields the original, for every text.
pub proof fn lemma_json_escape_round_trip(s: Seq<char>)
    ensures
        spec_json_unescape(spec_json_escape(s)) == s,
    decreases s.len(),
{
    if s.len() == 0 {
    } else {
        let c = s[0];
        let rest = spec_json_escape(s.drop_first());
        let e = spec_json_escape(s);
        assert(e == json_esc_char(c) + rest);
        lemma_json_escape_round_trip(s.drop_first());
        assert(seq![c] + s.drop_first() =~= s);
        if c == '"' {
            assert(e[0] == '\\' && e[1] == '"');
            assert(e.skip(2) =~= rest);
        } else if c == '\\' {
            assert(e[0] == '\\' && e[1] == '\\');
            assert(e.skip(2) =~= rest);
        } else if c == '\n' {
            assert(e[0] == '\\' && e[1] == 'n');
            assert(e.skip(2) =~= rest);
        } else if c == '\r' {
            assert(e[0] == '\\' && e[1] == 'r');
            assert(e.skip(2) =~= rest);
        } else if c == '\t' {
            assert(e[0] == '\\' && e[1] == 't');
            assert(e.skip(2) =~= rest);
        } else if (c as u32) < 32 {
            let code = c as u32;
            let hi = code / 16;
            let lo = code % 16;
            assert(e[0] == '\\' && e[1] == 'u' && e[2] == '0' && e[3] == '0');
            assert(e[4] == hex_char(hi as int) && e[5] == hex_char(lo as int));
            assert(hex_val(hex_char(hi as int)) == hi);
            assert(hex_val(hex_char(lo as int)) == lo);
            assert(hex_val(e[4]) * 16 + hex_val(e[5]) == code);
            vstd::utf8::char_u32_cast(c, code);
            assert(((hex_val(e[4]) * 16 + hex_val(e[5])) as u32) == code);
            assert(e.skip(6) =~= rest);
        } else {
            assert(e == seq![c] + rest);
            assert(e[0] == c && c != '\\');
            assert(e.drop_first() =~= rest);
        }
    }
}

fn hex_char_exec(d: u32) -> (c: char)
    requires
        d < 16,
    ensures
        c == hex_char(d as int),
{
    if d == 10 {
        'a'
    } else if d == 11 {
        'b'
    } else if d == 12 {
        'c'
    } else if d == 13 {
        'd'
    } else if d == 14 {
        'e'
    } else if d == 15 {
        'f'
    } else if d == 0 {
        '0'
    } else if d == 1 {
        '1'
    } else if d == 2 {
        '2'
    } else if d == 3 {
        '3'
    } else if d == 4 {
        '4'
    } else if d == 5 {
        '5'
    } else if d == 6 {
        '6'
    } else if d == 7 {
        '7'
    } else if d == 8 {
        '8'
    } else {
        '9'
    }
}

fn push_json_escaped(v: &mut Vec<char>, s: &str)
    ensures
        final(v)@ == old(v)@ + spec_json_escape(s@),
{
    let cs = str_chars(s);
    let mut i: usize = 0;
    proof {
        assert(cs@.skip(0) =~= cs@);
    }
    while i < cs.len()
        invariant
            0 <= i <= cs@.len(),
            cs@ == s@,
            old(v)@ + spec_json_escape(s@) == v@ + spec_json_escape(cs@.skip(i as int)),
        decreases cs@.len() - i,
    {
        let ghost rest = cs@.skip(i as int);
        proof {
            assert(rest[0] == cs@[i as int]);
            assert(rest.drop_first() =~= cs@.skip(i + 1));
        }
        let ghost pre = v@;
        let c = cs[i];
        if c == '"' {
            v.push('\\');
            v.push('"');
            assert(v@ =~= pre + json_esc_char(rest[0]));
        } else if c == '\\' {
            v.push('\\');
            v.push('\\');
            assert(v@ =~= pre + json_esc_char(rest[0]));
        } else if c == '\n' {
            v.push('\\');
            v.push('n');
            assert(v@ =~= pre + json_esc_char(rest[0]));
        } else if c == '\r' {
            v.push('\\');
            v.push('r');
            assert(v@ =~= pre + json_esc_char(rest[0]));
        } else if c == '\t' {
            v.push('\\');
            v.push('t');
            assert(v@ =~= pre + json_esc_char(rest[0]));
        } else if (c as u32) < 32 {
            v.push('\\');
            v.push('u');
            v.push('0');
            v.push('0');
            v.push(hex_char_exec((c as u32) / 16));
            v.push(hex_char_exec((c as u32) % 16));
            assert(v@ =~= pre + json_esc_char(rest[0]));
        } else {
            v.push(c);
            assert(v@ =~= pre + json_esc_char(rest[0]));
        }
        i = i + 1;
    }
    proof {
        assert(cs@.skip(cs@.len() as int) =~= Seq::<char>::empty());
        assert(v@ + Seq::<char>::empty() =~= v@);
    }
}

/// The JSON text of one result value.
pub open spec fn spec_json_value(d: Datum) -> Seq<char> {
    match d {
        Datum::Null => "null"@,
        Datum::Int(i) => spec_int_text(i as int),
        Datum::Real(t) => t@,
        Datum::Text(s) => seq!['"'] + spec_json_escape(s@) + seq!['"'],
    }
}

/// The indented cell lines of one JSON row, comma separated.
pub open spec fn spec_json_cells(r: Seq<Datum>, first: bool) -> Seq<char>
    decreases r.len(),
{
    if r.len() == 0 {
        Seq::empty()
    } else {
        (if first {
            "    "@
        } else {
            ",\n    "@
        }) + spec_json_value(r[0]) + spec_json_cells(r.drop_first(), false)
    }
}

/// One JSON row: an array of its cell values.
pub open spec fn spec_json_row(r: Seq<Datum>) -> Seq<char> {
    if r.len() == 0 {
        "[]"@
    } else {
        "[\n"@ + spec_json_cells(r, true) + "\n  ]"@
    }
}

/// The indented row blocks of a JSON document, comma separated.
pub open spec fn spec_json_rows(rows: Seq<Seq<Datum>>, first: bool) -> Seq<char>
    decreases rows.len(),
{
    if rows.len() == 0 {
        Seq::empty()
    } else {
        (if first {
            "  "@
        } else {
            ",\n  "@
        }) + spec_json_row(rows[0]) + spec_json_rows(rows.drop_first(), false)
    }
}

/// A result set as a pretty-printed JSON array of arrays.
pub open spec fn spec_json_doc(rows: Seq<Seq<Datum>>) -> Seq<char> {
    if rows.len() == 0 {
        "[]"@
    } else {
        "[\n"@ + spec_json_rows(rows, true) + "\n]"@
    }
}

fn render_json_value(v: &mut Vec<char>, d: &Datum)
    ensures
        final(v)@ == old(v)@ + spec_json_value(*d),
{
    match d {
        Datum::Null => {
            push_str_chars(v, "null");
        },
        Datum::Int(i) => {
            let cs = i64_to_chars(*i);
            push_chars(v, &cs);
        },
        Datum::Real(t) => {
            push_str_chars(v, t.as_str());
        },
        Datum::Text(s) => {
            v.push('"');
            push_json_escaped(v, s.as_str());
            v.push('"');
            proof {
                assert(v@ =~= old(v)@ + spec_json_value(Datum::Text(*s)));
            }
        },
    }
}

/// Renders a result set as a pretty-printed JSON array of arrays.
#[verifier::rlimit(60)]
pub fn render_json_doc(rows: &Vec<Vec<Datum>>) -> (r: String)
    ensures
        r@ == spec_json_doc(datum_mat_view(rows@)),
{
    let ghost m = datum_mat_view(rows@);
    if rows.len() == 0 {
        return "[]".to_owned();
    }
    let mut v: Vec<char> = Vec::new();
    push_str_chars(&mut v, "[\n");
    let ghost head = v@;
    let mut i: usize = 0;
    proof {
        assert(m.skip(0) =~= m);
    }
    while i < rows.len()
        invariant
            0 <= i <= rows@.len(),
            rows@.len() > 0,
            m == datum_mat_view(rows@),
            head == "[\n"@,
            head + spec_json_rows(m, true) == v@ + spec_json_rows(m.skip(i as int), i == 0),
        decreases rows@.len() - i,
    {
        let ghost rest = m.skip(i as int);
        proof {
            assert(rest[0] == m[i as int]);
            assert(m[i as int] == rows@[i as int]@);
            assert(rest.drop_first() =~= m.skip(i + 1));
        }
        if i == 0 {
            push_str_chars(&mut v, "  ");
        } else {
            push_str_chars(&mut v, ",\n  ");
        }
        let row = &rows[i];
        if row.len() == 0 {
            push_str_chars(&mut v, "[]");
        } else {
            push_str_chars(&mut v, "[\n");
            let mut j: usize = 0;
            let ghost rv = row@;
            let ghost cellhead = v@;
            proof {
                assert(rv.skip(0) =~= rv);
            }
            while j < row.len()
                invariant
                    0 <= j <= row@.len(),
                    row@.len() > 0,
                    rv == row@,
                    cellhead + spec_json_cells(rv, true) == v@ + spec_json_cells(
                        rv.skip(j as int),
                        j == 0,
                    ),
                decreases row@.len() - j,
            {
                let ghost crest = rv.skip(j as int);
                proof {
                    assert(crest[0] == rv[j as int]);
                    assert(crest.drop_first() =~= rv.skip(j + 1));
                }
                if j == 0 {
                    push_str_chars(&mut v, "    ");
                } else {
                    push_str_chars(&mut v, ",\n    ");
                }
                render_json_value(&mut v, &row[j]);
                j = j + 1;
            }
            proof {
                assert(rv.skip(rv.len() as int) =~= Seq::<Datum>::empty());
                assert(v@ + Seq::<char>::empty() =~= v@);
            }
            push_str_chars(&mut v, "\n  ]");
        }
        i = i + 1;
    }
    proof {
        assert(m.skip(m.len() as int) =~= Seq::<Seq<Datum>>::empty());
        assert(v@ + Seq::<char>::empty() =~= v@);
    }
    push_str_chars(&mut v, "\n]");
    proof {
        assert(v@ =~= spec_json_doc(m));
    }
    chars_string(&v)
}

/// The XML text of one result value: text escaped, numbers plain,
/// null empty.
pub open spec fn spec_xml_value(d: Datum) -> Seq<char> {
    match d {
        Datum::Null => Seq::<char>::empty(),
        Datum::Int(i) => spec_int_text(i as int),
        Datum::Real(t) => t@,
        Datum::Text(s) => spec_xml_escape(s@),
    }
}

/// The cell elements of one XML item, numbered from `idx`.
pub open spec fn spec_xml_cells(r: Seq<Datum>, idx: int) -> Seq<char>
    decreases r.len(),
{
    if r.len() == 0 {
        Seq::empty()
    } else {
        "      <col"@ + crate::text::spec_digits(idx) + ">"@ + spec_xml_value(r[0]) + "</col"@
            + crate::text::spec_digits(idx) + ">\n"@ + spec_xml_cells(r.drop_first(), idx + 1)
    }
}

/// One XML item block.
pub open spec fn spec_xml_row(r: Seq<Datum>) -> Seq<char> {
    "   <item>\n"@ + spec_xml_cells(r, 1) + "   </item>\n"@
}

/// The item blocks of an XML document.
pub open spec fn spec_xml_rows(rows: Seq<Seq<Datum>>) -> Seq<char>
    decreases rows.len(),
{
    if rows.len() == 0 {
        Seq::empty()
    } else {
        spec_xml_row(rows[0]) + spec_xml_rows(rows.drop_first())
    }
}

/// A result set as an XML document: a declaration, one item per row,
/// one numbered element per cell.
pub open spec fn spec_xml_doc(rows: Seq<Seq<Datum>>) -> Seq<char> {
    "<?xml version=\"1.0\" encoding=\"UTF-8\"?>\n<data>\n"@ + spec_xml_rows(rows) + "</data>\n"@
}

fn render_xml_value(v: &mut Vec<char>, d: &Datum)
    ensures
        final(v)@ == old(v)@ + spec_xml_value(*d),
{
    match d {
        Datum::Null => {
        },
        Datum::Int(i) => {
            let cs = i64_to_chars(*i);
            push_chars(v, &cs);
        },
        Datum::Real(t) => {
            push_str_chars(v, t.as_str());
        },
        Datum::Text(s) => {
            let e = xml_escape(s.as_str());
            push_str_chars(v, e.as_str());
        },
    }
}

/// Renders a result set as an XML document.
pub fn render_xml_doc(rows: &Vec<Vec<Datum>>) -> (r: String)
    ensures
        r@ == spec_xml_doc(datum_mat_view(rows@)),
{
    let ghost m = datum_mat_view(rows@);
    let mut v: Vec<char> = Vec::new();
    push_str_chars(&mut v, "<?xml version=\"1.0\" encoding=\"UTF-8\"?>\n<data>\n");
    let ghost head = v@;
    let mut i: usize = 0;
    proof {
        assert(m.skip(0) =~= m);
        assert(v@ + spec_xml_rows(m) =~= head + spec_xml_rows(m));
    }
    while i < rows.len()
        invariant
            0 <= i <= rows@.len(),
            m == datum_mat_view(rows@),
            head + spec_xml_rows(m) == v@ + spec_xml_rows(m.skip(i as int)),
        decreases rows@.len() - i,
    {
        let ghost rest = m.skip(i as int);
        proof {
            assert(rest[0] == m[i as int]);
            assert(m[i as int] == rows@[i as int]@);
            assert(rest.drop_first() =~= m.skip(i + 1));
        }
        push_str_chars(&mut v, "   <item>\n");
        let row = &rows[i];
        let ghost rv = row@;
        let mut j: usize = 0;
        let ghost cellhead = v@;
        proof {
            assert(rv.skip(0) =~= rv);
        }
        while j < row.len()
            invariant
                0 <= j <= row@.len(),
                rv == row@,
                cellhead + spec_xml_cells(rv, 1) == v@ + spec_xml_cells(
                    rv.skip(j as int),
                    j + 1,
                ),
            decreases row@.len() - j,
        {
            let ghost crest = rv.skip(j as int);
            proof {
                assert(crest[0] == rv[j as int]);
                assert(crest.drop_first() =~= rv.skip(j + 1));
            }
            push_str_chars(&mut v, "      <col");
            let num = crate::text::u64_to_chars((j + 1) as u64);
            push_chars(&mut v, &num);
            push_str_chars(&mut v, ">");
            render_xml_value(&mut v, &row[j]);
            push_str_chars(&mut v, "</col");
            let num2 = crate::text::u64_to_chars((j + 1) as u64);
            push_chars(&mut v, &num2);
            push_str_chars(&mut v, ">\n");
            j = j + 1;
        }
        proof {
            assert(rv.skip(rv.len() as int) =~= Seq::<Datum>::empty());
            assert(v@ + Seq::<char>::empty() =~= v@);
        }
        push_str_chars(&mut v, "   </item>\n");
        i = i + 1;
    }
    proof {
        assert(m.skip(m.len() as int) =~= Seq::<Seq<Datum>>::empty());
        assert(v@ + Seq::<char>::empty() =~= v@);
    }
    push_str_chars(&mut v, "</data>\n");
    proof {
        assert(v@ =~= spec_xml_doc(m));
    }
    chars_string(&v)
}

/// The rows of a result set as delimited-text fields, cell by cell.
pub fn render_csv_rows(rows: &Vec<Vec<Datum>>) -> (r: Vec<Vec<String>>)
    ensures
        r@.len() == rows@.len(),
        forall|i: int| 0 <= i < r@.len() ==> (#[trigger] r@[i])@.len() == rows@[i]@.len(),
        forall|i: int, j: int|
            0 <= i < r@.len() && 0 <= j < r@[i]@.len() ==> (#[trigger] r@[i]@[j])@
                == spec_csv_field(rows@[i]@[j]),
        text_rows_view(r@) == spec_csv_fields(datum_mat_view(rows@)),
{
    let mut r: Vec<Vec<String>> = Vec::new();
    let mut i: usize = 0;
    while i < rows.len()
        invariant
            0 <= i <= rows@.len(),
            r@.len() == i,
            forall|k: int| 0 <= k < i ==> (#[trigger] r@[k])@.len() == rows@[k]@.len(),
            forall|k: int, j: int|
                0 <= k < i && 0 <= j < r@[k]@.len() ==> (#[trigger] r@[k]@[j])@
                    == spec_csv_field(rows@[k]@[j]),
        decreases rows@.len() - i,
    {
        let row = &rows[i];
        let mut out: Vec<String> = Vec::new();
        let mut j: usize = 0;
        while j < row.len()
            invariant
                0 <= j <= row@.len(),
                out@.len() == j,
                forall|k: int| 0 <= k < j ==> (#[trigger] out@[k])@ == spec_csv_field(row@[k]),
            decreases row@.len() - j,
        {
            out.push(datum_csv_text(&row[j]));
            j = j + 1;
        }
        r.push(out);
        i = i + 1;
    }
    proof {
        let tv = text_rows_view(r@);
        let cf = spec_csv_fields(datum_mat_view(rows@));
        assert forall|k: int| 0 <= k < tv.len() implies #[trigger] tv[k] == cf[k] by {
            assert(tv[k].len() == r@[k]@.len());
            assert(cf[k].len() == rows@[k]@.len());
            assert forall|j: int| 0 <= j < tv[k].len() implies #[trigger] tv[k][j] == cf[k][j]
                by {
                assert(tv[k][j] == r@[k]@[j]@);
                assert(cf[k][j] == spec_csv_field(rows@[k]@[j]));
            }
            assert(tv[k] =~= cf[k]);
        }
        assert(tv =~= cf);
    }
    r
}


/// A placeholder as it stands in a template: the key in braces.
pub open spec fn brace_key(k: Seq<char>) -> Seq<char> {
    seq!['{'] + k + seq!['}']
}

/// The template with each pair applied in order: every occurrence of
/// the braced key replaced by the value, earlier pairs first.
pub open spec fn spec_substitute(t: Seq<char>, pairs: Seq<(Seq<char>, Seq<char>)>) -> Seq<char>
    decreases pairs.len(),
{
    if pairs.len() == 0 {
        t
    } else {
        spec_substitute(
            crate::text::spec_replace(t, brace_key(pairs[0].0), pairs[0].1),
            pairs.drop_first(),
        )
    }
}

/// The texts of an alias table.
pub open spec fn pairs_view(pairs: Seq<(String, String)>) -> Seq<(Seq<char>, Seq<char>)> {
    pairs.map_values(|p: (String, String)| (p.0@, p.1@))
}

/// The resolved query plans: template and destination texts.
pub open spec fn plans_view(plans: Seq<QueryDefinition>) -> Seq<(Seq<char>, Seq<char>)> {
    plans.map_values(|q: QueryDefinition| (q.sql@, q.sheet_name@))
}

/// The resolved conditional group: every history query with both its
/// template and its sheet name substituted.
pub open spec fn spec_plan_hist(
    qs: Seq<(Seq<char>, Seq<char>)>,
    vars: Seq<(Seq<char>, Seq<char>)>,
) -> Seq<(Seq<char>, Seq<char>)>
    decreases qs.len(),
{
    if qs.len() == 0 {
        Seq::empty()
    } else {
        seq![(spec_substitute(qs[0].0, vars), spec_substitute(qs[0].1, vars))] + spec_plan_hist(
            qs.drop_first(),
            vars,
        )
    }
}

/// The resolved standard group: the template substituted, the sheet
/// name taken verbatim.
pub open spec fn spec_plan_padrao(
    qs: Seq<(Seq<char>, Seq<char>)>,
    vars: Seq<(Seq<char>, Seq<char>)>,
) -> Seq<(Seq<char>, Seq<char>)>
    decreases qs.len(),
{
    if qs.len() == 0 {
        Seq::empty()
    } else {
        seq![(spec_substitute(qs[0].0, vars), qs[0].1)] + spec_plan_padrao(qs.drop_first(), vars)
    }
}

/// The query used when exporting the general entries: dates reshaped
/// to day-month-year, amounts localised, the label columns quoted,
/// rows ordered by date descending.
pub fn build_general_entries_query(entries_table: &str) -> (r: String)
    ensures
        r@ == "SELECT substr(LG.Data, 9, 2) || '-' || substr(LG.Data, 6, 2) || '-' || substr(LG.Data, 1, 4) AS Quando, LG.DIA_SEMANA as 'Dia da Semana', LG.TIPO as 'Tipo', LG.DESCRICAO as 'Descricao/Lancamento', replace(LG.Credito, '.', ',') as 'Credito', replace(LG.Debito, '.', ',') as 'Debito', char(39) || cast(Mes as text) as 'Mes', char(39) || cast(Ano as text) as 'Ano', char(39) || MES_EXTENSO as 'Mes(Por Extenso)', char(39) || cast(AnoMes as text) as 'Ano/Mes', LG.Origem as Origem FROM "@
            + entries_table@ + " LG ORDER BY Data DESC"@,
{
    crate::database::join3(
        "SELECT substr(LG.Data, 9, 2) || '-' || substr(LG.Data, 6, 2) || '-' || substr(LG.Data, 1, 4) AS Quando, LG.DIA_SEMANA as 'Dia da Semana', LG.TIPO as 'Tipo', LG.DESCRICAO as 'Descricao/Lancamento', replace(LG.Credito, '.', ',') as 'Credito', replace(LG.Debito, '.', ',') as 'Debito', char(39) || cast(Mes as text) as 'Mes', char(39) || cast(Ano as text) as 'Ano', char(39) || MES_EXTENSO as 'Mes(Por Extenso)', char(39) || cast(AnoMes as text) as 'Ano/Mes', LG.Origem as Origem FROM ",
        entries_table,
        " LG ORDER BY Data DESC",
    )
}

/// What the delimited-text writer produces from the given fields with
/// the given delimiter.
pub uninterp spec fn csv_encoding(rows: Seq<Seq<Seq<char>>>, delim: u8) -> Seq<u8>;

/// The texts of rendered field rows.
pub open spec fn text_rows_view(rows: Seq<Vec<String>>) -> Seq<Seq<Seq<char>>> {
    rows.map_values(|r: Vec<String>| r@.map_values(|s: String| s@))
}

/// Relies on `csv::WriterBuilder` and `Writer::write_record` of the
/// csv crate: encodes the field rows with the given delimiter,
/// quoting fields as the format requires. The encoding depends on the
/// fields and the delimiter alone; no rows give no bytes.
#[verifier::external_body]
fn csv_encode(rows: &Vec<Vec<String>>, delim: u8) -> (r: Result<Vec<u8>, String>)
    ensures
        r matches Ok(bytes) ==> bytes@ == csv_encoding(text_rows_view(rows@), delim),
        rows@.len() == 0 ==> (r matches Ok(bytes) ==> bytes@.len() == 0),
{
    let mut w = csv::WriterBuilder::new().delimiter(delim).from_writer(Vec::new());
    for row in rows.iter() {
        if let Err(e) = w.write_record(row.iter()) {
            return Err(e.to_string());
        }
    }
    w.into_inner().map_err(|e| e.to_string())
}

/// Report generator: renders query results into the export formats.
pub struct ReportGenerator {
    pub database: DatabaseManager,
    pub config: PdwConfig,
}

impl ReportGenerator {
    /// Creates a report generator over an open store.
    pub fn new(database: DatabaseManager, config: PdwConfig) -> (r: ReportGenerator)
        ensures
            r.config == config,
    {
        ReportGenerator { database, config }
    }

    /// The fixed alias table: each placeholder name and the run's
    /// actual table name for it.
    pub fn create_variable_map(&self) -> (r: Vec<(String, String)>)
        ensures
            pairs_view(r@) == spec_alias_pairs(self.config),
    {
        let mut r: Vec<(String, String)> = Vec::new();
        r.push(("entries_table".to_owned(), self.config.settings.general_entries_table.clone()));
        r.push(("full_hist".to_owned(), self.config.settings.full_pivot_table.clone()));
        r.push(("anual_hist".to_owned(), self.config.settings.anual_pivot_table.clone()));
        r.push(("day_prog".to_owned(), self.config.settings.dayly_progress.clone()));
        r.push(("splt_pmnt_res".to_owned(), self.config.settings.out_res_pmnt_tab.clone()));
        r.push(("mont_summ".to_owned(), self.config.settings.monthly_summaties.clone()));
        r.push(("dyn_rep_tab".to_owned(), self.config.settings.din_report_guiding.clone()));
        proof {
            assert(pairs_view(r@) =~= spec_alias_pairs(self.config));
        }
        r
    }

    /// Resolves the placeholders of a template against the alias
    /// table, each pair applied in order.
    pub fn substitute_variables(&self, template: &str, variables: &Vec<(String, String)>) -> (r:
        String)
        ensures
            r@ == spec_substitute(template@, pairs_view(variables@)),
    {
        let ghost pv = pairs_view(variables@);
        let mut cur = crate::text::str_chars(template);
        let mut i: usize = 0;
        proof {
            assert(pv.skip(0) =~= pv);
        }
        while i < variables.len()
            invariant
                0 <= i <= variables@.len(),
                pv == pairs_view(variables@),
                spec_substitute(template@, pv) == spec_substitute(cur@, pv.skip(i as int)),
            decreases variables@.len() - i,
        {
            let ghost rest = pv.skip(i as int);
            proof {
                assert(rest[0] == pv[i as int]);
                assert(pv[i as int] == (variables@[i as int].0@, variables@[i as int].1@));
                assert(rest.drop_first() =~= pv.skip(i + 1));
            }
            let mut pat: Vec<char> = Vec::new();
            pat.push('{');
            push_str_chars(&mut pat, variables[i].0.as_str());
            pat.push('}');
            proof {
                assert(pat@ =~= brace_key(variables@[i as int].0@));
            }
            let val = str_chars(variables[i].1.as_str());
            cur = crate::text::replace_chars(&cur, &pat, &val);
            i = i + 1;
        }
        proof {
            assert(pv.skip(pv.len() as int) =~= Seq::<(Seq<char>, Seq<char>)>::empty());
        }
        chars_string(&cur)
    }

    /// Resolves the ordered query list: the conditional history group
    /// only when pivot generation is enabled, then the standard group;
    /// history sheet names are substituted, standard ones stand.
    pub fn plan_report_queries(&self, query_config: &QueryConfig) -> (r: Vec<QueryDefinition>)
        ensures
            plans_view(r@) == (if self.config.settings.create_pivot {
                spec_plan_hist(
                    plans_view(query_config.queries_gera_hist@),
                    spec_alias_pairs(self.config),
                )
            } else {
                Seq::<(Seq<char>, Seq<char>)>::empty()
            }) + spec_plan_padrao(
                plans_view(query_config.queries_padrao@),
                spec_alias_pairs(self.config),
            ),
    {
        let ghost vars = spec_alias_pairs(self.config);
        let ghost gh = plans_view(query_config.queries_gera_hist@);
        let ghost pd = plans_view(query_config.queries_padrao@);
        let variables = self.create_variable_map();
        let mut r: Vec<QueryDefinition> = Vec::new();
        let ghost hist_part = if self.config.settings.create_pivot {
            spec_plan_hist(gh, vars)
        } else {
            Seq::<(Seq<char>, Seq<char>)>::empty()
        };
        if self.config.settings.create_pivot {
            let mut i: usize = 0;
            proof {
                assert(gh.skip(0) =~= gh);
                assert(plans_view(r@) =~= Seq::<(Seq<char>, Seq<char>)>::empty());
            }
            while i < query_config.queries_gera_hist.len()
                invariant
                    0 <= i <= query_config.queries_gera_hist@.len(),
                    gh == plans_view(query_config.queries_gera_hist@),
                    vars == spec_alias_pairs(self.config),
                    pairs_view(variables@) == vars,
                    spec_plan_hist(gh, vars) == plans_view(r@) + spec_plan_hist(
                        gh.skip(i as int),
                        vars,
                    ),
                decreases query_config.queries_gera_hist@.len() - i,
            {
                let ghost pre = r@;
                let ghost rest = gh.skip(i as int);
                proof {
                    assert(rest[0] == gh[i as int]);
                    assert(gh[i as int] == (query_config.queries_gera_hist@[i as int].sql@,
                        query_config.queries_gera_hist@[i as int].sheet_name@));
                    assert(rest.drop_first() =~= gh.skip(i + 1));
                }
                let q = &query_config.queries_gera_hist[i];
                let sql = self.substitute_variables(q.sql.as_str(), &variables);
                let sheet_name = self.substitute_variables(q.sheet_name.as_str(), &variables);
                r.push(QueryDefinition { sql, sheet_name });
                proof {
                    let f = |q: QueryDefinition| (q.sql@, q.sheet_name@);
                    assert(plans_view(r@) =~= pre.map_values(f).push(
                        (r@.last().sql@, r@.last().sheet_name@),
                    ));
                }
                i = i + 1;
            }
            proof {
                assert(gh.skip(gh.len() as int) =~= Seq::<(Seq<char>, Seq<char>)>::empty());
                assert(plans_view(r@) + Seq::<(Seq<char>, Seq<char>)>::empty() =~= plans_view(
                    r@,
                ));
            }
        }
        proof {
            assert(plans_view(r@) == hist_part);
            assert(pd.skip(0) =~= pd);
        }
        let mut j: usize = 0;
        while j < query_config.queries_padrao.len()
            invariant
                0 <= j <= query_config.queries_padrao@.len(),
                pd == plans_view(query_config.queries_padrao@),
                vars == spec_alias_pairs(self.config),
                pairs_view(variables@) == vars,
                hist_part + spec_plan_padrao(pd, vars) == plans_view(r@) + spec_plan_padrao(
                    pd.skip(j as int),
                    vars,
                ),
            decreases query_config.queries_padrao@.len() - j,
        {
            let ghost pre = r@;
            let ghost rest = pd.skip(j as int);
            proof {
                assert(rest[0] == pd[j as int]);
                assert(pd[j as int] == (query_config.queries_padrao@[j as int].sql@,
                    query_config.queries_padrao@[j as int].sheet_name@));
                assert(rest.drop_first() =~= pd.skip(j + 1));
            }
            let q = &query_config.queries_padrao[j];
            let sql = self.substitute_variables(q.sql.as_str(), &variables);
            r.push(QueryDefinition { sql, sheet_name: q.sheet_name.clone() });
            proof {
                let f = |q: QueryDefinition| (q.sql@, q.sheet_name@);
                assert(plans_view(r@) =~= pre.map_values(f).push(
                    (r@.last().sql@, r@.last().sheet_name@),
                ));
            }
            j = j + 1;
        }
        proof {
            assert(pd.skip(pd.len() as int) =~= Seq::<(Seq<char>, Seq<char>)>::empty());
            assert(plans_view(r@) + Seq::<(Seq<char>, Seq<char>)>::empty() =~= plans_view(r@));
        }
        r
    }
}

/// The alias table of a configuration, as text pairs.
pub open spec fn spec_alias_pairs(c: PdwConfig) -> Seq<(Seq<char>, Seq<char>)> {
    seq![
        ("entries_table"@, c.settings.general_entries_table@),
        ("full_hist"@, c.settings.full_pivot_table@),
        ("anual_hist"@, c.settings.anual_pivot_table@),
        ("day_prog"@, c.settings.dayly_progress@),
        ("splt_pmnt_res"@, c.settings.out_res_pmnt_tab@),
        ("mont_summ"@, c.settings.monthly_summaties@),
        ("dyn_rep_tab"@, c.settings.din_report_guiding@),
    ]
}


/// What every built report sheet is: the worksheet-text rendering of
/// some non-empty result matrix.
pub open spec fn spec_sheet_of(sheet: (String, Vec<Vec<String>>)) -> bool {
    exists|m: Seq<Seq<Datum>>|
        m.len() > 0 && text_rows_view(sheet.1@) == #[trigger] spec_sheet_fields(m)
}

impl ReportGenerator {
    /// Builds the report sheets: runs each planned query, skips empty
    /// result sets, renders the rest as worksheet text, and, when the
    /// dynamic group is enabled, appends the reports discovered from
    /// the dynamic guiding table.
    pub fn generate_excel_reports(&self, query_config: &QueryConfig) -> (r: Result<
        Vec<(String, Vec<Vec<String>>)>,
        PdwError,
    >)
        ensures
            r matches Err(e) ==> e matches PdwError::Database(_),
            r matches Ok(sheets) ==> forall|k: int|
                0 <= k < sheets@.len() ==> spec_sheet_of(#[trigger] sheets@[k]),
            query_config.queries_gera_hist@.len() == 0 && query_config.queries_padrao@.len() == 0
                && !self.config.settings.run_dinamic_report ==> r is Ok,
    {
        let plan = self.plan_report_queries(query_config);
        proof {
            if query_config.queries_gera_hist@.len() == 0 && query_config.queries_padrao@.len()
                == 0 {
                assert(plans_view(plan@).len() == 0);
                assert(plan@.len() == 0);
            }
        }
        let mut sheets: Vec<(String, Vec<Vec<String>>)> = Vec::new();
        let mut i: usize = 0;
        while i < plan.len()
            invariant
                0 <= i <= plan@.len(),
                query_config.queries_gera_hist@.len() == 0 && query_config.queries_padrao@.len()
                    == 0 ==> plan@.len() == 0,
                forall|k: int| 0 <= k < sheets@.len() ==> spec_sheet_of(#[trigger] sheets@[k]),
            decreases plan@.len() - i,
        {
            let q = &plan[i];
            let rows = match self.database.execute_query(q.sql.as_str()) {
                Ok(rows) => rows,
                Err(e) => {
                    return Err(e);
                },
            };
            if rows.len() > 0 {
                let ghost pre = sheets@;
                let rendered = render_sheet_rows(&rows);
                sheets.push((q.sheet_name.clone(), rendered));
                proof {
                    let m = datum_mat_view(rows@);
                    assert(m.len() > 0);
                    assert(text_rows_view(sheets@.last().1@) == spec_sheet_fields(m));
                    assert(spec_sheet_of(sheets@.last()));
                    assert(forall|k: int|
                        0 <= k < pre.len() ==> sheets@[k] == #[trigger] pre[k]);
                }
            }
            i = i + 1;
        }
        if self.config.settings.run_dinamic_report {
            let ghost pre = sheets@;
            if let Err(e) = self.add_dynamic_reports(&mut sheets) {
                return Err(e);
            }
            proof {
                assert forall|k: int|
                    0 <= k < sheets@.len() implies spec_sheet_of(#[trigger] sheets@[k]) by {
                    if k < pre.len() {
                        assert(sheets@[k] == pre[k]);
                    }
                }
            }
        }
        Ok(sheets)
    }

    /// Discovers and appends the dynamic reports: each row of the
    /// dynamic guiding table names a destination table and an output
    /// label; every named table's rows become one more sheet.
    fn add_dynamic_reports(&self, sheets: &mut Vec<(String, Vec<Vec<String>>)>) -> (r: Result<
        (),
        PdwError,
    >)
        ensures
            r matches Err(e) ==> e matches PdwError::Database(_),
            final(sheets)@.len() >= old(sheets)@.len(),
            forall|k: int|
                0 <= k < old(sheets)@.len() ==> final(sheets)@[k] == #[trigger] old(sheets)@[k],
            forall|k: int|
                old(sheets)@.len() <= k < final(sheets)@.len() ==> spec_sheet_of(
                    #[trigger] final(sheets)@[k],
                ),
    {
        let listing = join2("SELECT * FROM ", self.config.settings.din_report_guiding.as_str());
        let reports = match self.database.execute_query(listing.as_str()) {
            Ok(rows) => rows,
            Err(e) => {
                return Err(e);
            },
        };
        let mut i: usize = 0;
        while i < reports.len()
            invariant
                0 <= i <= reports@.len(),
                sheets@.len() >= old(sheets)@.len(),
                forall|k: int|
                    0 <= k < old(sheets)@.len() ==> sheets@[k] == #[trigger] old(sheets)@[k],
                forall|k: int|
                    old(sheets)@.len() <= k < sheets@.len() ==> spec_sheet_of(
                        #[trigger] sheets@[k],
                    ),
            decreases reports@.len() - i,
        {
            let row = &reports[i];
            if row.len() >= 2 {
                let dest = match &row[0] {
                    Datum::Text(s) => Some(s.clone()),
                    _ => None,
                };
                let label = match &row[1] {
                    Datum::Text(s) => Some(s.clone()),
                    _ => None,
                };
                if let (Some(dest_table), Some(report_name)) = (dest, label) {
                    let q = join2("SELECT * FROM ", dest_table.as_str());
                    let rows = match self.database.execute_query(q.as_str()) {
                        Ok(rows) => rows,
                        Err(e) => {
                            return Err(e);
                        },
                    };
                    if rows.len() > 0 {
                        let ghost pre = sheets@;
                        let rendered = render_sheet_rows(&rows);
                        sheets.push((report_name, rendered));
                        proof {
                            let m = datum_mat_view(rows@);
                            assert(m.len() > 0);
                            assert(text_rows_view(sheets@.last().1@) == spec_sheet_fields(m));
                            assert(spec_sheet_of(sheets@.last()));
                            assert(forall|k: int|
                                0 <= k < pre.len() ==> sheets@[k] == #[trigger] pre[k]);
                        }
                    }
                }
            }
            i = i + 1;
        }
        Ok(())
    }

    /// Exports a query's result set as delimited text: semicolon
    /// delimited, numeric values with the comma as decimal separator.
    /// The bytes are what the writer produced from the exactly
    /// rendered fields.
    pub fn export_csv(&self, query: &str) -> (r: Result<Vec<u8>, PdwError>)
        ensures
            r matches Err(e) ==> (e matches PdwError::Database(_) || e matches PdwError::Report(
                ReportError::CsvWriter(_),
            )),
            r matches Ok(b) ==> exists|m: Seq<Seq<Datum>>|
                b@ == csv_encoding(#[trigger] spec_csv_fields(m), 59),
    {
        let rows = match self.database.execute_query(query) {
            Ok(rows) => rows,
            Err(e) => {
                return Err(e);
            },
        };
        let fields = render_csv_rows(&rows);
        match csv_encode(&fields, 59u8) {
            Ok(bytes) => {
                proof {
                    let m = datum_mat_view(rows@);
                    assert(bytes@ == csv_encoding(spec_csv_fields(m), 59));
                }
                Ok(bytes)
            },
            Err(reason) => Err(PdwError::Report(ReportError::CsvWriter(reason))),
        }
    }

    /// Exports a query's result set as a pretty-printed JSON array of
    /// arrays, exactly as the renderer specifies.
    pub fn export_json(&self, query: &str) -> (r: Result<String, PdwError>)
        ensures
            r matches Err(e) ==> e matches PdwError::Database(_),
            r matches Ok(s) ==> exists|m: Seq<Seq<Datum>>| s@ == #[trigger] spec_json_doc(m),
    {
        match self.database.execute_query(query) {
            Ok(rows) => {
                let doc = render_json_doc(&rows);
                proof {
                    assert(doc@ == spec_json_doc(datum_mat_view(rows@)));
                }
                Ok(doc)
            },
            Err(e) => Err(e),
        }
    }

    /// Exports a query's result set as an XML document, exactly as
    /// the renderer specifies.
    pub fn export_xml(&self, query: &str) -> (r: Result<String, PdwError>)
        ensures
            r matches Err(e) ==> e matches PdwError::Database(_),
            r matches Ok(s) ==> exists|m: Seq<Seq<Datum>>| s@ == #[trigger] spec_xml_doc(m),
    {
        match self.database.execute_query(query) {
            Ok(rows) => {
                let doc = render_xml_doc(&rows);
                proof {
                    assert(doc@ == spec_xml_doc(datum_mat_view(rows@)));
                }
                Ok(doc)
            },
            Err(e) => Err(e),
        }
    }

    /// Exports the general entries: always the delimited text, and the
    /// JSON and XML documents exactly when exporting other types is
    /// enabled.
    pub fn export_general_entries(&self) -> (r: Result<
        (Vec<u8>, Option<String>, Option<String>),
        PdwError,
    >)
        ensures
            r matches Ok(b) ==> (b.1 is Some <==> self.config.settings.export_other_types),
            r matches Ok(b) ==> (b.2 is Some <==> self.config.settings.export_other_types),
            r matches Ok(b) ==> exists|m: Seq<Seq<Datum>>|
                b.0@ == csv_encoding(#[trigger] spec_csv_fields(m), 59),
            r matches Ok(b) ==> (b.1 matches Some(s) ==> exists|m: Seq<Seq<Datum>>|
                s@ == #[trigger] spec_json_doc(m)),
            r matches Ok(b) ==> (b.2 matches Some(s) ==> exists|m: Seq<Seq<Datum>>|
                s@ == #[trigger] spec_xml_doc(m)),
    {
        let query = build_general_entries_query(
            self.config.settings.general_entries_table.as_str(),
        );
        let csv_bytes = match self.export_csv(query.as_str()) {
            Ok(b) => b,
            Err(e) => {
                return Err(e);
            },
        };
        if self.config.settings.export_other_types {
            let json = match self.export_json(query.as_str()) {
                Ok(s) => s,
                Err(e) => {
                    return Err(e);
                },
            };
            let xml = match self.export_xml(query.as_str()) {
                Ok(s) => s,
                Err(e) => {
                    return Err(e);
                },
            };
            Ok((csv_bytes, Some(json), Some(xml)))
        } else {
            Ok((csv_bytes, None, None))
        }
    }
}

} // verus!\n