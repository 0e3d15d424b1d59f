//! The configuration file format: one header row, then one delimited record
//! per entry, each holding a name, a location and an enabled flag.
//!
//! A field containing a delimiter, a quote or a line break is written quoted,
//! with inner quotes doubled, so that every entry round-trips through the
//! file unchanged; [`lemma_config_round_trip`] proves it.  The grammar is
//! given by total specification functions (`scan_*`, [`spec_parse`],
//! [`spec_config_text`]) and the executable parser and writer are verified
//! against them exactly.

use vstd::prelude::*;
use vstd::string::*;
use crate::text::push_char;

verus! {

/// One persisted entry: a unique name, a location, and whether the batch
/// update acts on it.
#[derive(Debug, Clone, PartialEq, Eq)]
pub struct NamedFlake {
    pub name: String,
    pub location: String,
    pub enabled: bool,
}

/// The mathematical shape of a persisted entry.
pub struct RecordView {
    pub name: Seq<char>,
    pub location: Seq<char>,
    pub enabled: bool,
}

impl View for NamedFlake {
    type V = RecordView;

    open spec fn view(&self) -> RecordView {
        RecordView { name: self.name@, location: self.location@, enabled: self.enabled }
    }
}

impl DeepView for NamedFlake {
    type V = RecordView;

    open spec fn deep_view(&self) -> RecordView {
        self.view()
    }
}

/// Why a configuration file was rejected.
#[derive(Debug, Clone, Copy, PartialEq, Eq)]
pub enum ParseError {
    /// A quote is unterminated or appears where the grammar forbids it.
    Syntax,
    /// The first row is not the expected header row.
    Header,
    /// A record does not have exactly three fields.
    FieldCount,
    /// A record's third field is neither `true` nor `false`.
    Flag,
}

/// The message text of each parse error.
pub open spec fn spec_parse_error_msg(e: ParseError) -> Seq<char> {
    match e {
        ParseError::Syntax => "configuration file holds a malformed quoted field"@,
        ParseError::Header => "configuration file does not start with the expected header row"@,
        ParseError::FieldCount => "configuration record does not have exactly three fields"@,
        ParseError::Flag => "configuration record has a flag that is neither `true` nor `false`"@,
    }
}

impl ParseError {
    /// The user-facing message of this parse error.
    pub fn msg(&self) -> (m: String)
        ensures
            m@ == spec_parse_error_msg(*self),
    {
        match self {
            ParseError::Syntax => String::from_str(
                "configuration file holds a malformed quoted field",
            ),
            ParseError::Header => String::from_str(
                "configuration file does not start with the expected header row",
            ),
            ParseError::FieldCount => String::from_str(
                "configuration record does not have exactly three fields",
            ),
            ParseError::Flag => String::from_str(
                "configuration record has a flag that is neither `true` nor `false`",
            ),
        }
    }
}

/// What scanning one field yields: the field's characters and the input
/// that remains, which starts at the field's terminator (a delimiter, a
/// record break, or the end of the input).
pub struct FieldScan {
    pub ok: bool,
    pub content: Seq<char>,
    pub rest: Seq<char>,
}

/// Scans an unquoted field: everything up to the next delimiter or record
/// break.  A quote or a bare carriage return may not appear here.
pub open spec fn scan_plain(s: Seq<char>) -> FieldScan
    decreases s.len(),
{
    if s.len() == 0 || s[0] == ',' || s[0] == '\n' {
        FieldScan { ok: true, content: Seq::empty(), rest: s }
    } else if s[0] == '"' || s[0] == '\r' {
        FieldScan { ok: false, content: Seq::empty(), rest: s }
    } else {
        let r = scan_plain(s.drop_first());
        FieldScan { ok: r.ok, content: seq![s[0]] + r.content, rest: r.rest }
    }
}

/// Scans the inside of a quoted field, after its opening quote.  A doubled
/// quote stands for one literal quote; a single quote closes the field and
/// must be followed by a delimiter, a record break, or the end of the input.
pub open spec fn scan_quoted(s: Seq<char>) -> FieldScan
    decreases s.len(),
{
    if s.len() == 0 {
        FieldScan { ok: false, content: Seq::empty(), rest: s }
    } else if s[0] == '"' {
        if s.len() == 1 || s[1] == ',' || s[1] == '\n' {
            FieldScan { ok: true, content: Seq::empty(), rest: s.drop_first() }
        } else if s[1] == '"' {
            let r = scan_quoted(s.skip(2));
            FieldScan { ok: r.ok, content: seq!['"'] + r.content, rest: r.rest }
        } else {
            FieldScan { ok: false, content: Seq::empty(), rest: s }
        }
    } else {
        let r = scan_quoted(s.drop_first());
        FieldScan { ok: r.ok, content: seq![s[0]] + r.content, rest: r.rest }
    }
}

/// Scans one field, quoted or not.
pub open spec fn scan_field(s: Seq<char>) -> FieldScan {
    if s.len() > 0 && s[0] == '"' {
        scan_quoted(s.drop_first())
    } else {
        scan_plain(s)
    }
}

proof fn lemma_scan_plain_rest(s: Seq<char>)
    ensures
        scan_plain(s).rest.len() <= s.len(),
    decreases s.len(),
{
    if s.len() == 0 || s[0] == ',' || s[0] == '\n' {
    } else if s[0] == '"' || s[0] == '\r' {
    } else {
        lemma_scan_plain_rest(s.drop_first());
    }
}

proof fn lemma_scan_quoted_rest(s: Seq<char>)
    ensures
        scan_quoted(s).rest.len() <= s.len(),
    decreases s.len(),
{
    if s.len() == 0 {
    } else if s[0] == '"' {
        if s.len() == 1 || s[1] == ',' || s[1] == '\n' {
        } else if s[1] == '"' {
            lemma_scan_quoted_rest(s.skip(2));
        }
    } else {
        lemma_scan_quoted_rest(s.drop_first());
    }
}

/// A field scan never hands back more input than it was given.
pub proof fn lemma_scan_field_rest(s: Seq<char>)
    ensures
        scan_field(s).rest.len() <= s.len(),
{
    if s.len() > 0 && s[0] == '"' {
        lemma_scan_quoted_rest(s.drop_first());
    } else {
        lemma_scan_plain_rest(s);
    }
}

/// What scanning one record yields: its fields and the input that remains
/// after the record's terminating line break (or the empty rest, when the
/// record ends the input).
pub struct RecordScan {
    pub ok: bool,
    pub fields: Seq<Seq<char>>,
    pub rest: Seq<char>,
}

/// Scans one record: fields separated by delimiters, terminated by a line
/// break or the end of the input.
pub open spec fn scan_record(s: Seq<char>) -> RecordScan
    decreases s.len(),
    via scan_record_dec
{
    let f = scan_field(s);
    if !f.ok {
        RecordScan { ok: false, fields: Seq::empty(), rest: s }
    } else if f.rest.len() == 0 {
        RecordScan { ok: true, fields: seq![f.content], rest: f.rest }
    } else if f.rest[0] == '\n' {
        RecordScan { ok: true, fields: seq![f.content], rest: f.rest.drop_first() }
    } else if f.rest[0] == ',' {
        let r = scan_record(f.rest.drop_first());
        RecordScan { ok: r.ok, fields: seq![f.content] + r.fields, rest: r.rest }
    } else {
        RecordScan { ok: false, fields: Seq::empty(), rest: s }
    }
}

#[via_fn]
proof fn scan_record_dec(s: Seq<char>) {
    lemma_scan_field_rest(s);
}

/// A record scan consumes at least one character of a non-empty input.
pub proof fn lemma_scan_record_rest(s: Seq<char>)
    ensures
        scan_record(s).rest.len() <= s.len(),
        s.len() > 0 && scan_record(s).ok ==> scan_record(s).rest.len() < s.len(),
    decreases s.len(),
{
    lemma_scan_field_rest(s);
    let f = scan_field(s);
    if f.ok && f.rest.len() > 0 && f.rest[0] == ',' {
        lemma_scan_record_rest(f.rest.drop_first());
    }
}

/// What scanning a whole input yields: its records, in order.
pub struct RowsScan {
    pub ok: bool,
    pub rows: Seq<Seq<Seq<char>>>,
}

/// Scans records until the input is exhausted.
pub open spec fn scan_rows(s: Seq<char>) -> RowsScan
    decreases s.len(),
    via scan_rows_dec
{
    if s.len() == 0 {
        RowsScan { ok: true, rows: Seq::empty() }
    } else {
        let r = scan_record(s);
        if !r.ok {
            RowsScan { ok: false, rows: Seq::empty() }
        } else {
            let tail = scan_rows(r.rest);
            RowsScan { ok: tail.ok, rows: seq![r.fields] + tail.rows }
        }
    }
}

#[via_fn]
proof fn scan_rows_dec(s: Seq<char>) {
    lemma_scan_record_rest(s);
}

/// The header row every non-empty configuration file must start with.
pub open spec fn header_fields() -> Seq<Seq<char>> {
    seq!["name"@, "location"@, "enabled"@]
}

/// The header line as written.
pub open spec fn header_line() -> Seq<char> {
    "name,location,enabled\n"@
}

/// The text of an enabled flag.
pub open spec fn bool_text(b: bool) -> Seq<char> {
    if b {
        "true"@
    } else {
        "false"@
    }
}

/// Turns scanned rows (after the header) into records: each row must have
/// exactly a name, a location, and a `true`/`false` flag.  The first
/// offending row decides the error.
pub open spec fn rows_to_records(rows: Seq<Seq<Seq<char>>>) -> Result<Seq<RecordView>, ParseError>
    decreases rows.len(),
{
    if rows.len() == 0 {
        Ok(Seq::empty())
    } else if rows[0].len() != 3 {
        Err(ParseError::FieldCount)
    } else if rows[0][2] != "true"@ && rows[0][2] != "false"@ {
        Err(ParseError::Flag)
    } else {
        match rows_to_records(rows.drop_first()) {
            Ok(tail) => Ok(
                seq![
                    RecordView {
                        name: rows[0][0],
                        location: rows[0][1],
                        enabled: rows[0][2] == "true"@,
                    },
                ] + tail,
            ),
            Err(e) => Err(e),
        }
    }
}

/// A character that forces a field to be written quoted.
pub open spec fn is_special(c: char) -> bool {
    c == ',' || c == '"' || c == '\n' || c == '\r'
}

/// Whether a field must be written quoted.
pub open spec fn needs_quoting(f: Seq<char>) -> bool {
    exists|i: int| 0 <= i < f.len() && is_special(#[trigger] f[i])
}

/// A field's characters with every quote doubled.
pub open spec fn escape_quotes(f: Seq<char>) -> Seq<char>
    decreases f.len(),
{
    if f.len() == 0 {
        Seq::empty()
    } else if f[0] == '"' {
        seq!['"', '"'] + escape_quotes(f.drop_first())
    } else {
        seq![f[0]] + escape_quotes(f.drop_first())
    }
}

/// A field as written: quoted and escaped when it holds a special
/// character, verbatim otherwise.
pub open spec fn enc_field(f: Seq<char>) -> Seq<char> {
    if needs_quoting(f) {
        seq!['"'] + escape_quotes(f) + seq!['"']
    } else {
        f
    }
}

/// A record as written: name, location and flag, delimited, with a
/// terminating line break.
pub open spec fn record_line(r: RecordView) -> Seq<char> {
    enc_field(r.name) + seq![','] + enc_field(r.location) + seq![','] + bool_text(r.enabled)
        + seq!['\n']
}

/// The records of a registry as written, in order.
pub open spec fn records_text(rs: Seq<RecordView>) -> Seq<char>
    decreases rs.len(),
{
    if rs.len() == 0 {
        Seq::empty()
    } else {
        record_line(rs[0]) + records_text(rs.drop_first())
    }
}

/// A whole configuration file as written: the header line, then one line
/// per record.
pub open spec fn spec_config_text(rs: Seq<RecordView>) -> Seq<char> {
    header_line() + records_text(rs)
}

/// What parsing a configuration file yields.  An empty file holds no
/// records; any other file must scan, start with the header row, and hold
/// well-formed records.
pub open spec fn spec_parse(s: Seq<char>) -> Result<Seq<RecordView>, ParseError> {
    if s.len() == 0 {
        Ok(Seq::empty())
    } else {
        let sc = scan_rows(s);
        if !sc.ok {
            Err(ParseError::Syntax)
        } else if sc.rows.len() == 0 || sc.rows[0] != header_fields() {
            Err(ParseError::Header)
        } else {
            rows_to_records(sc.rows.drop_first())
        }
    }
}

fn scan_plain_x<'a>(s: &'a str) -> (r: (bool, String, &'a str))
    ensures
        r.0 == scan_plain(s@).ok,
        r.1@ == scan_plain(s@).content,
        r.2@ == scan_plain(s@).rest,
    decreases s@.len(),
{
    let n = s.unicode_len();
    if n == 0 {
        return (true, String::new(), s);
    }
    let c = s.get_char(0);
    if c == ',' || c == '\n' {
        return (true, String::new(), s);
    }
    if c == '"' || c == '\r' {
        return (false, String::new(), s);
    }
    let tail = s.substring_char(1, n);
    proof {
        assert(tail@ =~= s@.drop_first());
    }
    let (ok, tc, rest) = scan_plain_x(tail);
    let mut content = String::new();
    push_char(&mut content, c);
    content.append(tc.as_str());
    proof {
        assert(content@ =~= seq![s@[0]] + scan_plain(s@.drop_first()).content);
    }
    (ok, content, rest)
}

fn scan_quoted_x<'a>(s: &'a str) -> (r: (bool, String, &'a str))
    ensures
        r.0 == scan_quoted(s@).ok,
        r.1@ == scan_quoted(s@).content,
        r.2@ == scan_quoted(s@).rest,
    decreases s@.len(),
{
    let n = s.unicode_len();
    if n == 0 {
        return (false, String::new(), s);
    }
    let c = s.get_char(0);
    if c == '"' {
        if n == 1 {
            let rest = s.substring_char(1, n);
            proof {
                assert(rest@ =~= s@.drop_first());
            }
            return (true, String::new(), rest);
        }
        let c2 = s.get_char(1);
        if c2 == ',' || c2 == '\n' {
            let rest = s.substring_char(1, n);
            proof {
                assert(rest@ =~= s@.drop_first());
            }
            return (true, String::new(), rest);
        }
        if c2 == '"' {
            let tail = s.substring_char(2, n);
            proof {
                assert(tail@ =~= s@.skip(2));
            }
            let (ok, tc, rest) = scan_quoted_x(tail);
            let mut content = String::new();
            push_char(&mut content, '"');
            content.append(tc.as_str());
            proof {
                assert(content@ =~= seq!['"'] + scan_quoted(s@.skip(2)).content);
            }
            return (ok, content, rest);
        }
        return (false, String::new(), s);
    }
    let tail = s.substring_char(1, n);
    proof {
        assert(tail@ =~= s@.drop_first());
    }
    let (ok, tc, rest) = scan_quoted_x(tail);
    let mut content = String::new();
    push_char(&mut content, c);
    content.append(tc.as_str());
    proof {
        assert(content@ =~= seq![s@[0]] + scan_quoted(s@.drop_first()).content);
    }
    (ok, content, rest)
}

fn scan_field_x<'a>(s: &'a str) -> (r: (bool, String, &'a str))
    ensures
        r.0 == scan_field(s@).ok,
        r.1@ == scan_field(s@).content,
        r.2@ == scan_field(s@).rest,
{
    let n = s.unicode_len();
    if n > 0 && s.get_char(0) == '"' {
        let tail = s.substring_char(1, n);
        proof {
            assert(tail@ =~= s@.drop_first());
        }
        scan_quoted_x(tail)
    } else {
        scan_plain_x(s)
    }
}

fn scan_record_x<'a>(s: &'a str) -> (r: (bool, Vec<String>, &'a str))
    ensures
        r.0 == scan_record(s@).ok,
        r.1.deep_view() == scan_record(s@).fields,
        r.2@ == scan_record(s@).rest,
    decreases s@.len(),
{
    let (fok, content, frest) = scan_field_x(s);
    if !fok {
        let v: Vec<String> = Vec::new();
        proof {
            assert(v.deep_view() =~= Seq::<Seq<char>>::empty());
        }
        return (false, v, s);
    }
    let m = frest.unicode_len();
    if m == 0 {
        let mut v: Vec<String> = Vec::new();
        v.push(content);
        proof {
            assert(v.deep_view() =~= seq![scan_field(s@).content]);
        }
        return (true, v, frest);
    }
    let c = frest.get_char(0);
    if c == '\n' {
        let rest = frest.substring_char(1, m);
        proof {
            assert(rest@ =~= scan_field(s@).rest.drop_first());
        }
        let mut v: Vec<String> = Vec::new();
        v.push(content);
        proof {
            assert(v.deep_view() =~= seq![scan_field(s@).content]);
        }
        return (true, v, rest);
    }
    if c == ',' {
        let after = frest.substring_char(1, m);
        proof {
            assert(after@ =~= scan_field(s@).rest.drop_first());
            lemma_scan_field_rest(s@);
        }
        let (rok, mut fields, rrest) = scan_record_x(after);
        let ghost tail_fields = scan_record(after@).fields;
        fields.insert(0, content);
        proof {
            assert(fields.deep_view() =~= seq![scan_field(s@).content] + tail_fields);
        }
        return (rok, fields, rrest);
    }
    let v: Vec<String> = Vec::new();
    proof {
        assert(v.deep_view() =~= Seq::<Seq<char>>::empty());
    }
    (false, v, s)
}

fn scan_rows_x(s: &str) -> (r: (bool, Vec<Vec<String>>))
    ensures
        r.0 == scan_rows(s@).ok,
        r.1.deep_view() == scan_rows(s@).rows,
    decreases s@.len(),
{
    let n = s.unicode_len();
    if n == 0 {
        let v: Vec<Vec<String>> = Vec::new();
        proof {
            assert(v.deep_view() =~= Seq::<Seq<Seq<char>>>::empty());
        }
        return (true, v);
    }
    let (rok, fields, rest) = scan_record_x(s);
    if !rok {
        let v: Vec<Vec<String>> = Vec::new();
        proof {
            assert(v.deep_view() =~= Seq::<Seq<Seq<char>>>::empty());
        }
        return (false, v);
    }
    proof {
        lemma_scan_record_rest(s@);
    }
    let (tok, mut rows) = scan_rows_x(rest);
    let ghost tail_rows = scan_rows(rest@).rows;
    let ghost fields_view = fields.deep_view();
    rows.insert(0, fields);
    proof {
        assert(rows.deep_view() =~= seq![fields_view] + tail_rows);
    }
    (tok, rows)
}

fn convert_rows(rows: &Vec<Vec<String>>, k: usize) -> (r: Result<Vec<NamedFlake>, ParseError>)
    requires
        k <= rows.len(),
    ensures
        (match r {
            Ok(v) => rows_to_records(rows.deep_view().skip(k as int)) == Ok::<
                Seq<RecordView>,
                ParseError,
            >(v.deep_view()),
            Err(e) => rows_to_records(rows.deep_view().skip(k as int)) == Err::<
                Seq<RecordView>,
                ParseError,
            >(e),
        }),
    decreases rows.len() - k,
{
    let ghost all = rows.deep_view();
    if k == rows.len() {
        let v: Vec<NamedFlake> = Vec::new();
        proof {
            assert(all.skip(k as int) =~= Seq::<Seq<Seq<char>>>::empty());
            assert(v.deep_view() =~= Seq::<RecordView>::empty());
        }
        return Ok(v);
    }
    proof {
        assert(all.skip(k as int)[0] == all[k as int]);
        assert(all.skip(k as int).drop_first() =~= all.skip(k + 1));
    }
    let row = &rows[k];
    if row.len() != 3 {
        return Err(ParseError::FieldCount);
    }
    let enabled: bool = if crate::text::str_eq(row[2].as_str(), "true") {
        true
    } else if crate::text::str_eq(row[2].as_str(), "false") {
        false
    } else {
        return Err(ParseError::Flag);
    };
    let nf = NamedFlake { name: row[0].clone(), location: row[1].clone(), enabled };
    let ghost nf_view = nf@;
    match convert_rows(rows, k + 1) {
        Ok(mut v) => {
            let ghost tail_view = v.deep_view();
            v.insert(0, nf);
            proof {
                assert(v.deep_view() =~= seq![nf_view] + tail_view);
            }
            Ok(v)
        }
        Err(e) => Err(e),
    }
}

/// Parses a configuration file's whole text into its records.  The result
/// is exactly what [`spec_parse`] assigns to the text.
pub fn parse_config(s: &str) -> (r: Result<Vec<NamedFlake>, ParseError>)
    ensures
        (match r {
            Ok(v) => spec_parse(s@) == Ok::<Seq<RecordView>, ParseError>(v.deep_view()),
            Err(e) => spec_parse(s@) == Err::<Seq<RecordView>, ParseError>(e),
        }),
{
    let n = s.unicode_len();
    if n == 0 {
        let v: Vec<NamedFlake> = Vec::new();
        proof {
            assert(v.deep_view() =~= Seq::<RecordView>::empty());
        }
        return Ok(v);
    }
    let (ok, rows) = scan_rows_x(s);
    if !ok {
        return Err(ParseError::Syntax);
    }
    if rows.len() == 0 {
        return Err(ParseError::Header);
    }
    let h = &rows[0];
    let header_ok = h.len() == 3 && crate::text::str_eq(h[0].as_str(), "name")
        && crate::text::str_eq(h[1].as_str(), "location")
        && crate::text::str_eq(h[2].as_str(), "enabled");
    proof {
        assert(rows.deep_view()[0] == h.deep_view());
        if header_ok {
            assert(h.deep_view() =~= header_fields());
        } else {
            assert(h.deep_view() != header_fields());
        }
    }
    if !header_ok {
        return Err(ParseError::Header);
    }
    proof {
        assert(rows.deep_view().skip(1) =~= rows.deep_view().drop_first());
    }
    convert_rows(&rows, 1)
}

proof fn lemma_unquoted_head(f: Seq<char>)
    requires
        !needs_quoting(f),
        f.len() > 0,
    ensures
        !is_special(f[0]),
        !needs_quoting(f.drop_first()),
{
    assert(!is_special(f[0])) by {
        if is_special(f[0]) {
            assert(0 <= 0 < f.len() && is_special(f[0]));
        }
    }
    assert(!needs_quoting(f.drop_first())) by {
        if needs_quoting(f.drop_first()) {
            let i = choose|i: int| 0 <= i < f.drop_first().len() && is_special(
                #[trigger] f.drop_first()[i],
            );
            assert(f[i + 1] == f.drop_first()[i]);
            assert(is_special(f[i + 1]));
        }
    }
}

proof fn lemma_scan_plain_enc(f: Seq<char>, t: Seq<char>)
    requires
        !needs_quoting(f),
        t.len() == 0 || t[0] == ',' || t[0] == '\n',
    ensures
        scan_plain(f + t).ok,
        scan_plain(f + t).content == f,
        scan_plain(f + t).rest == t,
    decreases f.len(),
{
    if f.len() == 0 {
        assert(f + t =~= t);
        assert(scan_plain(t).content =~= f);
    } else {
        lemma_unquoted_head(f);
        let s = f + t;
        assert(s[0] == f[0]);
        assert(s.drop_first() =~= f.drop_first() + t);
        lemma_scan_plain_enc(f.drop_first(), t);
        assert(seq![f[0]] + f.drop_first() =~= f);
    }
}

proof fn lemma_scan_quoted_escaped(f: Seq<char>, t: Seq<char>)
    requires
        t.len() == 0 || t[0] == ',' || t[0] == '\n',
    ensures
        scan_quoted(escape_quotes(f) + seq!['"'] + t).ok,
        scan_quoted(escape_quotes(f) + seq!['"'] + t).content == f,
        scan_quoted(escape_quotes(f) + seq!['"'] + t).rest == t,
    decreases f.len(),
{
    let s = escape_quotes(f) + seq!['"'] + t;
    if f.len() == 0 {
        assert(s =~= seq!['"'] + t);
        assert(s[0] == '"');
        if s.len() == 1 {
        } else {
            assert(s[1] == t[0]);
        }
        assert(s.drop_first() =~= t);
        assert(scan_quoted(s).content =~= f);
    } else if f[0] == '"' {
        assert(escape_quotes(f) =~= seq!['"', '"'] + escape_quotes(f.drop_first()));
        assert(s[0] == '"');
        assert(s[1] == '"');
        assert(s.len() > 1);
        assert(s.skip(2) =~= escape_quotes(f.drop_first()) + seq!['"'] + t);
        lemma_scan_quoted_escaped(f.drop_first(), t);
        assert(seq!['"'] + f.drop_first() =~= f);
    } else {
        assert(escape_quotes(f) =~= seq![f[0]] + escape_quotes(f.drop_first()));
        assert(s[0] == f[0]);
        assert(s.drop_first() =~= escape_quotes(f.drop_first()) + seq!['"'] + t);
        lemma_scan_quoted_escaped(f.drop_first(), t);
        assert(seq![f[0]] + f.drop_first() =~= f);
    }
}

proof fn lemma_scan_field_enc(f: Seq<char>, t: Seq<char>)
    requires
        t.len() == 0 || t[0] == ',' || t[0] == '\n',
    ensures
        scan_field(enc_field(f) + t).ok,
        scan_field(enc_field(f) + t).content == f,
        scan_field(enc_field(f) + t).rest == t,
{
    let s = enc_field(f) + t;
    if needs_quoting(f) {
        assert(s =~= seq!['"'] + (escape_quotes(f) + seq!['"'] + t));
        assert(s[0] == '"');
        assert(s.drop_first() =~= escape_quotes(f) + seq!['"'] + t);
        lemma_scan_quoted_escaped(f, t);
    } else {
        assert(s =~= f + t);
        if s.len() > 0 && s[0] == '"' {
            if f.len() > 0 {
                lemma_unquoted_head(f);
                assert(f[0] == s[0]);
                assert(false);
            } else {
                assert(s =~= t);
                assert(false);
            }
        }
        lemma_scan_plain_enc(f, t);
    }
}

proof fn lemma_scan_record_fields(a: Seq<char>, b: Seq<char>, c: Seq<char>, t: Seq<char>)
    requires
        !needs_quoting(c),
    ensures
        scan_record(enc_field(a) + seq![','] + enc_field(b) + seq![','] + c + seq!['\n'] + t).ok,
        scan_record(
            enc_field(a) + seq![','] + enc_field(b) + seq![','] + c + seq!['\n'] + t,
        ).fields == seq![a, b, c],
        scan_record(enc_field(a) + seq![','] + enc_field(b) + seq![','] + c + seq!['\n'] + t).rest
            == t,
{
    let s = enc_field(a) + seq![','] + enc_field(b) + seq![','] + c + seq!['\n'] + t;
    let t1 = seq![','] + enc_field(b) + seq![','] + c + seq!['\n'] + t;
    let t2 = seq![','] + c + seq!['\n'] + t;
    let t3 = seq!['\n'] + t;
    assert(s =~= enc_field(a) + t1);
    lemma_scan_field_enc(a, t1);
    assert(t1[0] == ',');
    assert(t1.drop_first() =~= enc_field(b) + t2);
    lemma_scan_field_enc(b, t2);
    assert(t2[0] == ',');
    assert(t2.drop_first() =~= enc_field(c) + t3);
    assert(enc_field(c) == c);
    lemma_scan_field_enc(c, t3);
    assert(t3[0] == '\n');
    assert(t3.drop_first() =~= t);
    let r3 = scan_record(t2.drop_first());
    assert(r3.ok && r3.fields == seq![c] && r3.rest == t);
    let r2 = scan_record(t1.drop_first());
    assert(r2.ok && r2.fields == seq![b] + seq![c] && r2.rest == t);
    assert(scan_record(s).fields =~= seq![a, b, c]);
}

/// The rows (as raw fields) that a registry's records occupy in the file.
pub open spec fn rows_of(rs: Seq<RecordView>) -> Seq<Seq<Seq<char>>>
    decreases rs.len(),
{
    if rs.len() == 0 {
        Seq::empty()
    } else {
        seq![seq![rs[0].name, rs[0].location, bool_text(rs[0].enabled)]] + rows_of(
            rs.drop_first(),
        )
    }
}

proof fn lemma_text_facts()
    ensures
        !needs_quoting("name"@),
        !needs_quoting("location"@),
        !needs_quoting("enabled"@),
        !needs_quoting("true"@),
        !needs_quoting("false"@),
        "true"@ != "false"@,
        header_line() == "name"@ + seq![','] + "location"@ + seq![','] + "enabled"@ + seq!['\n'],
        header_line().len() > 0,
{
    reveal_strlit("name");
    reveal_strlit("location");
    reveal_strlit("enabled");
    reveal_strlit("true");
    reveal_strlit("false");
    reveal_strlit("name,location,enabled\n");
    assert forall|i: int| 0 <= i < "name"@.len() implies !is_special(#[trigger] "name"@[i]) by {
        if i == 0 {
        } else if i == 1 {
        } else if i == 2 {
        } else {
            assert(i == 3);
        }
    }
    assert forall|i: int| 0 <= i < "location"@.len() implies !is_special(
        #[trigger] "location"@[i],
    ) by {
        if i == 0 {
        } else if i == 1 {
        } else if i == 2 {
        } else if i == 3 {
        } else if i == 4 {
        } else if i == 5 {
        } else if i == 6 {
        } else {
            assert(i == 7);
        }
    }
    assert forall|i: int| 0 <= i < "enabled"@.len() implies !is_special(
        #[trigger] "enabled"@[i],
    ) by {
        if i == 0 {
        } else if i == 1 {
        } else if i == 2 {
        } else if i == 3 {
        } else if i == 4 {
        } else if i == 5 {
        } else {
            assert(i == 6);
        }
    }
    assert forall|i: int| 0 <= i < "true"@.len() implies !is_special(#[trigger] "true"@[i]) by {
        if i == 0 {
        } else if i == 1 {
        } else if i == 2 {
        } else {
            assert(i == 3);
        }
    }
    assert forall|i: int| 0 <= i < "false"@.len() implies !is_special(#[trigger] "false"@[i]) by {
        if i == 0 {
        } else if i == 1 {
        } else if i == 2 {
        } else if i == 3 {
        } else {
            assert(i == 4);
        }
    }
    assert("true"@.len() != "false"@.len());
    assert(header_line() =~= "name"@ + seq![','] + "location"@ + seq![','] + "enabled"@
        + seq!['\n']);
}

proof fn lemma_scan_rows_records(rs: Seq<RecordView>)
    ensures
        scan_rows(records_text(rs)).ok,
        scan_rows(records_text(rs)).rows == rows_of(rs),
    decreases rs.len(),
{
    lemma_text_facts();
    if rs.len() == 0 {
        assert(scan_rows(records_text(rs)).rows =~= rows_of(rs));
    } else {
        let r0 = rs[0];
        let body = records_text(rs.drop_first());
        let s = records_text(rs);
        assert(s == record_line(r0) + body);
        assert(s =~= enc_field(r0.name) + seq![','] + enc_field(r0.location) + seq![',']
            + bool_text(r0.enabled) + seq!['\n'] + body);
        lemma_scan_record_fields(r0.name, r0.location, bool_text(r0.enabled), body);
        assert(s.len() > 0);
        lemma_scan_rows_records(rs.drop_first());
        assert(scan_rows(s).rows =~= rows_of(rs));
    }
}

proof fn lemma_rows_to_records_of(rs: Seq<RecordView>)
    ensures
        rows_to_records(rows_of(rs)) == Ok::<Seq<RecordView>, ParseError>(rs),
    decreases rs.len(),
{
    lemma_text_facts();
    if rs.len() == 0 {
        assert(rows_of(rs) =~= Seq::<Seq<Seq<char>>>::empty());
        assert(rs =~= Seq::<RecordView>::empty());
    } else {
        let rows = rows_of(rs);
        assert(rows[0] == seq![rs[0].name, rs[0].location, bool_text(rs[0].enabled)]);
        assert(rows[0].len() == 3);
        assert(rows[0][2] == bool_text(rs[0].enabled));
        lemma_rows_to_records_of(rs.drop_first());
        assert(rows.drop_first() =~= rows_of(rs.drop_first()));
        let rebuilt = RecordView {
            name: rows[0][0],
            location: rows[0][1],
            enabled: rows[0][2] == "true"@,
        };
        assert(rebuilt == rs[0]);
        assert(seq![rebuilt] + rs.drop_first() =~= rs);
    }
}

/// Round trip: parsing the file a registry writes yields exactly the
/// registry's records, whatever characters their names and locations hold.
pub proof fn lemma_config_round_trip(rs: Seq<RecordView>)
    ensures
        spec_parse(spec_config_text(rs)) == Ok::<Seq<RecordView>, ParseError>(rs),
{
    lemma_text_facts();
    let s = spec_config_text(rs);
    let body = records_text(rs);
    assert(s =~= enc_field("name"@) + seq![','] + enc_field("location"@) + seq![','] + "enabled"@
        + seq!['\n'] + body);
    lemma_scan_record_fields("name"@, "location"@, "enabled"@, body);
    lemma_scan_rows_records(rs);
    assert(s.len() > 0);
    assert(scan_rows(s).ok);
    assert(scan_rows(s).rows == seq![seq!["name"@, "location"@, "enabled"@]] + rows_of(rs));
    assert(scan_rows(s).rows[0] =~= header_fields());
    assert(scan_rows(s).rows.drop_first() =~= rows_of(rs));
    lemma_rows_to_records_of(rs);
}

fn needs_quoting_x(f: &str) -> (r: bool)
    ensures
        r == needs_quoting(f@),
{
    let n = f.unicode_len();
    let mut i: usize = 0;
    while i < n
        invariant
            i <= n,
            n == f@.len(),
            forall|j: int| 0 <= j < i ==> !is_special(#[trigger] f@[j]),
        decreases n - i,
    {
        let c = f.get_char(i);
        if c == ',' || c == '"' || c == '\n' || c == '\r' {
            return true;
        }
        i += 1;
    }
    false
}

fn escape_x(f: &str) -> (out: String)
    ensures
        out@ == escape_quotes(f@),
{
    let n = f.unicode_len();
    let mut out = String::new();
    proof {
        assert(f@.skip(0) =~= f@);
    }
    let mut i: usize = 0;
    while i < n
        invariant
            i <= n,
            n == f@.len(),
            escape_quotes(f@) == out@ + escape_quotes(f@.skip(i as int)),
        decreases n - i,
    {
        proof {
            assert(f@.skip(i as int).drop_first() =~= f@.skip(i + 1));
            assert(f@.skip(i as int)[0] == f@[i as int]);
        }
        let c = f.get_char(i);
        if c == '"' {
            push_char(&mut out, '"');
            push_char(&mut out, '"');
        } else {
            push_char(&mut out, c);
        }
        i += 1;
    }
    proof {
        assert(f@.skip(n as int) =~= Seq::<char>::empty());
    }
    out
}

fn enc_field_x(f: &str) -> (out: String)
    ensures
        out@ == enc_field(f@),
{
    if needs_quoting_x(f) {
        let mut out = String::new();
        push_char(&mut out, '"');
        out.append(escape_x(f).as_str());
        push_char(&mut out, '"');
        proof {
            assert(out@ =~= seq!['"'] + escape_quotes(f@) + seq!['"']);
        }
        out
    } else {
        String::from_str(f)
    }
}

/// Writes a registry's records as a configuration file's whole text: the
/// result is exactly [`spec_config_text`] of the records.
pub fn write_config(entries: &Vec<NamedFlake>) -> (out: String)
    ensures
        out@ == spec_config_text(entries.deep_view()),
{
    let ghost rs = entries.deep_view();
    let mut out = String::from_str("name,location,enabled\n");
    proof {
        assert(rs.skip(0) =~= rs);
    }
    let mut i: usize = 0;
    while i < entries.len()
        invariant
            i <= entries.len(),
            rs == entries.deep_view(),
            rs.len() == entries.len(),
            spec_config_text(rs) == out@ + records_text(rs.skip(i as int)),
        decreases entries.len() - i,
    {
        proof {
            assert(rs.skip(i as int).drop_first() =~= rs.skip(i + 1));
            assert(rs.skip(i as int)[0] == rs[i as int]);
        }
        let ghost out0 = out@;
        let e = &entries[i];
        out.append(enc_field_x(e.name.as_str()).as_str());
        push_char(&mut out, ',');
        out.append(enc_field_x(e.location.as_str()).as_str());
        push_char(&mut out, ',');
        if e.enabled {
            out.append("true");
        } else {
            out.append("false");
        }
        push_char(&mut out, '\n');
        proof {
            assert(out@ =~= out0 + record_line(rs[i as int]));
        }
        i += 1;
    }
    proof {
        assert(rs.skip(i as int) =~= Seq::<RecordView>::empty());
    }
    out
}

} // verus!
