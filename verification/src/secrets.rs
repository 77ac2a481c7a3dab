//! The credentials parser: a strict line-oriented `KEY=VALUE` grammar with
//! line-numbered diagnostics. Recognized keys are `DB_URL` and `API_KEY`;
//! any other key, a line without a delimiter, or a value that is empty after
//! trimming is an error reported immediately, while a key that never appears
//! is reported only after every line has been read (`DB_URL` checked first).

use vstd::prelude::*;
use vstd::string::StrSliceExecFns;
use vstd::string::StringExecFns;

use crate::strutil::find_char;
use crate::strutil::lemma_find_char_bounds;
use crate::strutil::lemma_find_char_scan;
use crate::strutil::lemma_trim_drop_last_space;
use crate::strutil::spec_dec;
use crate::strutil::spec_find_char;
use crate::strutil::spec_trim;
use crate::strutil::str_eq;
use crate::strutil::trim_str;
use crate::strutil::usize_to_string;

verus! {

/// The validated credential pair, both values non-empty after trimming.
#[derive(Debug)]
pub struct Secret {
    pub db_url: String,
    pub api_key: String,
}

// --- diagnostic messages ---

/// `"invalid line format at <file>:<n>"`.
pub open spec fn spec_msg_invalid_line(file: Seq<char>, n: nat) -> Seq<char> {
    "invalid line format at "@ + file + ":"@ + spec_dec(n)
}

/// `"value is empty at <file>:<n>"`.
pub open spec fn spec_msg_empty_value(file: Seq<char>, n: nat) -> Seq<char> {
    "value is empty at "@ + file + ":"@ + spec_dec(n)
}

/// `"unexpected key '<key>' at <file>:<n>"`; `key` is the untrimmed text
/// before the delimiter.
pub open spec fn spec_msg_unexpected_key(key: Seq<char>, file: Seq<char>, n: nat) -> Seq<char> {
    "unexpected key '"@ + key + "' at "@ + file + ":"@ + spec_dec(n)
}

/// `"DB_URL value not found in <file>"`.
pub open spec fn spec_msg_missing_db_url(file: Seq<char>) -> Seq<char> {
    "DB_URL value not found in "@ + file
}

/// `"API_KEY value not found in <file>"`.
pub open spec fn spec_msg_missing_api_key(file: Seq<char>) -> Seq<char> {
    "API_KEY value not found in "@ + file
}

// --- line splitting ---

/// Drops one trailing carriage return, as reading a CRLF text line does.
pub open spec fn spec_strip_cr(l: Seq<char>) -> Seq<char> {
    if l.len() > 0 && l[l.len() - 1] == '\r' {
        l.drop_last()
    } else {
        l
    }
}

/// The lines of `s` from position `i` on: newline-separated, each without its
/// terminator, with no empty line after a trailing newline.
pub open spec fn spec_lines_from(s: Seq<char>, i: int) -> Seq<Seq<char>>
    decreases s.len() - i,
{
    if !(0 <= i < s.len()) {
        Seq::empty()
    } else {
        proof {
            lemma_find_char_bounds(s, '\n', i);
        }
        match spec_find_char(s, '\n', i) {
            None => seq![s.skip(i)],
            Some(j) => seq![spec_strip_cr(s.subrange(i, j))] + spec_lines_from(s, j + 1),
        }
    }
}

/// The lines of `s`.
pub open spec fn spec_lines(s: Seq<char>) -> Seq<Seq<char>> {
    spec_lines_from(s, 0)
}

/// Splits `s` into its lines.
pub fn split_lines(s: &str) -> (r: Vec<String>)
    ensures
        r.deep_view() == spec_lines(s@),
{
    let len: usize = s.unicode_len();
    let mut acc: Vec<String> = Vec::new();
    let mut start: usize = 0;
    proof {
        assert(acc.deep_view() + spec_lines_from(s@, 0) =~~= spec_lines(s@));
    }
    while start < len
        invariant
            start <= len,
            len == s@.len(),
            acc.deep_view() + spec_lines_from(s@, start as int) =~~= spec_lines(s@),
        decreases len - start,
    {
        let ghost prev = acc.deep_view();
        match find_char(s, '\n', start) {
            None => {
                let line = s.substring_char(start, len);
                acc.push(String::from_str(line));
                proof {
                    assert(line@ =~= s@.skip(start as int));
                    assert(acc.deep_view() =~~= prev.push(line@));
                    assert(spec_lines_from(s@, start as int) =~~= seq![s@.skip(start as int)]);
                    assert(acc.deep_view() + spec_lines_from(s@, len as int) =~~= spec_lines(s@));
                }
                start = len;
            },
            Some(j) => {
                let mut end: usize = j;
                if j > start && s.get_char(j - 1) == '\r' {
                    end = j - 1;
                }
                let line = s.substring_char(start, end);
                acc.push(String::from_str(line));
                proof {
                    assert(line@ =~= spec_strip_cr(s@.subrange(start as int, j as int)));
                    assert(acc.deep_view() =~~= prev.push(line@));
                    assert(acc.deep_view() + spec_lines_from(s@, j + 1) =~~= spec_lines(s@));
                }
                start = j + 1;
            },
        }
    }
    acc
}

// --- the parse, one line at a time ---

/// What one line contributes: `Ok((true, v))` sets `DB_URL` to `v`,
/// `Ok((false, v))` sets `API_KEY`, `Err(m)` stops the parse with message `m`.
pub open spec fn spec_line_result(l: Seq<char>, file: Seq<char>, n: nat) -> Result<
    (bool, Seq<char>),
    Seq<char>,
> {
    match spec_find_char(l, '=', 0) {
        None => Err(spec_msg_invalid_line(file, n)),
        Some(e) => {
            let key = spec_trim(l.take(e));
            let v = spec_trim(l.skip(e + 1));
            if key == "DB_URL"@ {
                if v.len() == 0 {
                    Err(spec_msg_empty_value(file, n))
                } else {
                    Ok((true, v))
                }
            } else if key == "API_KEY"@ {
                if v.len() == 0 {
                    Err(spec_msg_empty_value(file, n))
                } else {
                    Ok((false, v))
                }
            } else {
                Err(spec_msg_unexpected_key(l.take(e), file, n))
            }
        },
    }
}

/// The parse from line index `i` on, given the values seen so far. Lines are
/// numbered from 1; the last occurrence of a key wins; after the last line,
/// a missing `DB_URL` is reported before a missing `API_KEY`.
pub open spec fn spec_parse_from(
    lines: Seq<Seq<char>>,
    file: Seq<char>,
    i: int,
    db: Option<Seq<char>>,
    api: Option<Seq<char>>,
) -> Result<(Seq<char>, Seq<char>), Seq<char>>
    decreases lines.len() - i,
{
    if !(0 <= i < lines.len()) {
        match db {
            None => Err(spec_msg_missing_db_url(file)),
            Some(d) => match api {
                None => Err(spec_msg_missing_api_key(file)),
                Some(a) => Ok((d, a)),
            },
        }
    } else {
        match spec_line_result(lines[i], file, (i + 1) as nat) {
            Err(m) => Err(m),
            Ok((is_db, v)) => if is_db {
                spec_parse_from(lines, file, i + 1, Some(v), api)
            } else {
                spec_parse_from(lines, file, i + 1, db, Some(v))
            },
        }
    }
}

/// The whole parse: `Ok((db_url, api_key))` or the first error's message.
pub open spec fn spec_parse(content: Seq<char>, file: Seq<char>) -> Result<
    (Seq<char>, Seq<char>),
    Seq<char>,
> {
    spec_parse_from(spec_lines(content), file, 0, None, None)
}

fn msg_at(prefix: &str, file: &str, line: usize) -> (r: String)
    ensures
        r@ == prefix@ + file@ + ":"@ + spec_dec(line as nat),
{
    let mut s = String::from_str(prefix);
    s.append(file);
    s.append(":");
    let num = usize_to_string(line);
    s.append(num.as_str());
    s
}

fn msg_unexpected(key: &str, file: &str, line: usize) -> (r: String)
    ensures
        r@ == spec_msg_unexpected_key(key@, file@, line as nat),
{
    let mut s = String::from_str("unexpected key '");
    s.append(key);
    let tail = msg_at("' at ", file, line);
    s.append(tail.as_str());
    proof {
        assert(s@ =~= spec_msg_unexpected_key(key@, file@, line as nat));
    }
    s
}

fn msg_missing(prefix: &str, file: &str) -> (r: String)
    ensures
        r@ == prefix@ + file@,
{
    let mut s = String::from_str(prefix);
    s.append(file);
    s
}

/// Trims `value`; an empty trimmed value is an error at `file:line`.
pub fn check_val_empty(value: &str, file: &str, line: usize) -> (r: Result<String, String>)
    ensures
        match r {
            Ok(v) => spec_trim(value@).len() > 0 && v@ == spec_trim(value@),
            Err(m) => spec_trim(value@).len() == 0 && m@ == spec_msg_empty_value(
                file@,
                line as nat,
            ),
        },
{
    let t = trim_str(value);
    if t.unicode_len() == 0 {
        Err(msg_at("value is empty at ", file, line))
    } else {
        Ok(String::from_str(t))
    }
}

/// Parses the credentials text: each line one `KEY=VALUE` pair, first error
/// wins, and a key that never appears is reported after the last line.
pub fn parse_secrets(content: &str, file_name: &str) -> (r: Result<Secret, String>)
    ensures
        match r {
            Ok(sec) => spec_parse(content@, file_name@) == Ok::<_, Seq<char>>(
                (sec.db_url@, sec.api_key@),
            ),
            Err(m) => spec_parse(content@, file_name@) == Err::<(Seq<char>, Seq<char>), _>(m@),
        },
{
    let lines = split_lines(content);
    let ghost gl = lines.deep_view();
    let ghost gf = file_name@;
    let mut db: Option<String> = None;
    let mut api: Option<String> = None;
    let nlines: usize = lines.len();
    let mut i: usize = 0;
    while i < nlines
        invariant
            i <= nlines,
            nlines == gl.len(),
            gl == lines.deep_view(),
            gl == spec_lines(content@),
            gf == file_name@,
            spec_parse_from(gl, gf, 0, None, None) == spec_parse_from(
                gl,
                gf,
                i as int,
                db.deep_view(),
                api.deep_view(),
            ),
        decreases nlines - i,
    {
        let line: &str = lines[i].as_str();
        proof {
            assert(line@ == gl[i as int]);
        }
        let n: usize = i + 1;
        match find_char(line, '=', 0) {
            None => {
                return Err(msg_at("invalid line format at ", file_name, n));
            },
            Some(e) => {
                let llen: usize = line.unicode_len();
                let rawkey = line.substring_char(0, e);
                let key = trim_str(rawkey);
                let rawval = line.substring_char(e + 1, llen);
                proof {
                    assert(rawkey@ =~= gl[i as int].take(e as int));
                    assert(rawval@ =~= gl[i as int].skip(e + 1));
                }
                if str_eq(key, "DB_URL") {
                    match check_val_empty(rawval, file_name, n) {
                        Ok(v) => {
                            db = Some(v);
                        },
                        Err(m) => {
                            return Err(m);
                        },
                    }
                } else if str_eq(key, "API_KEY") {
                    match check_val_empty(rawval, file_name, n) {
                        Ok(v) => {
                            api = Some(v);
                        },
                        Err(m) => {
                            return Err(m);
                        },
                    }
                } else {
                    return Err(msg_unexpected(rawkey, file_name, n));
                }
            },
        }
        i = i + 1;
    }
    let db_val = match db {
        Some(v) => v,
        None => {
            return Err(msg_missing("DB_URL value not found in ", file_name));
        },
    };
    let api_val = match api {
        Some(v) => v,
        None => {
            return Err(msg_missing("API_KEY value not found in ", file_name));
        },
    };
    Ok(Secret { db_url: db_val, api_key: api_val })
}

// --- laws ---

proof fn lemma_db_line(u: Seq<char>, file: Seq<char>, n: nat)
    requires
        spec_trim(u).len() > 0,
    ensures
        spec_line_result("DB_URL="@ + u, file, n) == Ok::<_, Seq<char>>((true, spec_trim(u))),
{
    reveal_strlit("DB_URL=");
    reveal_strlit("DB_URL");
    let l = "DB_URL="@ + u;
    assert forall|j: int| 0 <= j < 6 implies l[j] != '=' by {
        if j == 0 {
            assert(l[0] == 'D');
        } else if j == 1 {
            assert(l[1] == 'B');
        } else if j == 2 {
            assert(l[2] == '_');
        } else if j == 3 {
            assert(l[3] == 'U');
        } else if j == 4 {
            assert(l[4] == 'R');
        } else {
            assert(l[5] == 'L');
        }
    }
    assert(l[6] == '=');
    lemma_find_char_scan(l, '=', 0, 6);
    assert(spec_find_char(l, '=', 0) == Some(6int));
    assert forall|j: int| 0 <= j < 6 implies l.take(6)[j] == "DB_URL"@[j] by {
        if j == 0 {
            assert(l[0] == 'D' && "DB_URL"@[0] == 'D');
        } else if j == 1 {
            assert(l[1] == 'B' && "DB_URL"@[1] == 'B');
        } else if j == 2 {
            assert(l[2] == '_' && "DB_URL"@[2] == '_');
        } else if j == 3 {
            assert(l[3] == 'U' && "DB_URL"@[3] == 'U');
        } else if j == 4 {
            assert(l[4] == 'R' && "DB_URL"@[4] == 'R');
        } else {
            assert(l[5] == 'L' && "DB_URL"@[5] == 'L');
        }
    }
    assert(l.take(6) =~= "DB_URL"@);
    assert(spec_trim("DB_URL"@) == "DB_URL"@);
    assert(l.skip(7) =~= u);
}

proof fn lemma_api_line(k: Seq<char>, file: Seq<char>, n: nat)
    requires
        spec_trim(k).len() > 0,
    ensures
        spec_line_result("API_KEY="@ + k, file, n) == Ok::<_, Seq<char>>((false, spec_trim(k))),
{
    reveal_strlit("API_KEY=");
    reveal_strlit("API_KEY");
    reveal_strlit("DB_URL");
    let l = "API_KEY="@ + k;
    assert forall|j: int| 0 <= j < 7 implies l[j] != '=' by {
        if j == 0 {
            assert(l[0] == 'A');
        } else if j == 1 {
            assert(l[1] == 'P');
        } else if j == 2 {
            assert(l[2] == 'I');
        } else if j == 3 {
            assert(l[3] == '_');
        } else if j == 4 {
            assert(l[4] == 'K');
        } else if j == 5 {
            assert(l[5] == 'E');
        } else {
            assert(l[6] == 'Y');
        }
    }
    assert(l[7] == '=');
    lemma_find_char_scan(l, '=', 0, 7);
    assert(spec_find_char(l, '=', 0) == Some(7int));
    assert forall|j: int| 0 <= j < 7 implies l.take(7)[j] == "API_KEY"@[j] by {
        if j == 0 {
            assert(l[0] == 'A' && "API_KEY"@[0] == 'A');
        } else if j == 1 {
            assert(l[1] == 'P' && "API_KEY"@[1] == 'P');
        } else if j == 2 {
            assert(l[2] == 'I' && "API_KEY"@[2] == 'I');
        } else if j == 3 {
            assert(l[3] == '_' && "API_KEY"@[3] == '_');
        } else if j == 4 {
            assert(l[4] == 'K' && "API_KEY"@[4] == 'K');
        } else if j == 5 {
            assert(l[5] == 'E' && "API_KEY"@[5] == 'E');
        } else {
            assert(l[6] == 'Y' && "API_KEY"@[6] == 'Y');
        }
    }
    assert(l.take(7) =~= "API_KEY"@);
    assert(spec_trim("API_KEY"@) == "API_KEY"@);
    assert("API_KEY"@.len() != "DB_URL"@.len());
    assert(l.skip(8) =~= k);
}

proof fn lemma_no_nl_db(u: Seq<char>)
    requires
        forall|j: int| 0 <= j < u.len() ==> u[j] != '\n',
    ensures
        forall|j: int|
            0 <= j < ("DB_URL="@ + u).len() ==> (#[trigger] ("DB_URL="@ + u)[j]) != '\n',
{
    reveal_strlit("DB_URL=");
    let l = "DB_URL="@ + u;
    assert forall|j: int| 0 <= j < l.len() implies l[j] != '\n' by {
        if j >= 7 {
            assert(l[j] == u[j - 7]);
        } else if j == 0 {
            assert(l[0] == 'D');
        } else if j == 1 {
            assert(l[1] == 'B');
        } else if j == 2 {
            assert(l[2] == '_');
        } else if j == 3 {
            assert(l[3] == 'U');
        } else if j == 4 {
            assert(l[4] == 'R');
        } else if j == 5 {
            assert(l[5] == 'L');
        } else {
            assert(l[6] == '=');
        }
    }
}

proof fn lemma_no_nl_api(k: Seq<char>)
    requires
        forall|j: int| 0 <= j < k.len() ==> k[j] != '\n',
    ensures
        forall|j: int|
            0 <= j < ("API_KEY="@ + k).len() ==> (#[trigger] ("API_KEY="@ + k)[j]) != '\n',
{
    reveal_strlit("API_KEY=");
    let l = "API_KEY="@ + k;
    assert forall|j: int| 0 <= j < l.len() implies l[j] != '\n' by {
        if j >= 8 {
            assert(l[j] == k[j - 8]);
        } else if j == 0 {
            assert(l[0] == 'A');
        } else if j == 1 {
            assert(l[1] == 'P');
        } else if j == 2 {
            assert(l[2] == 'I');
        } else if j == 3 {
            assert(l[3] == '_');
        } else if j == 4 {
            assert(l[4] == 'K');
        } else if j == 5 {
            assert(l[5] == 'E');
        } else if j == 6 {
            assert(l[6] == 'Y');
        } else {
            assert(l[7] == '=');
        }
    }
}

/// A two-line text holding one `DB_URL` line and one `API_KEY` line, in
/// either order, parses to the credential pair with both values trimmed.
/// The values may carry surrounding whitespace, carriage returns and further
/// `=` characters; a newline inside a value would make the text more than
/// two lines and is excluded.
pub proof fn lemma_two_line_parse(u: Seq<char>, k: Seq<char>, file: Seq<char>, db_first: bool)
    requires
        spec_trim(u).len() > 0,
        spec_trim(k).len() > 0,
        forall|j: int| 0 <= j < u.len() ==> u[j] != '\n',
        forall|j: int| 0 <= j < k.len() ==> k[j] != '\n',
    ensures
        ({
            let first = if db_first {
                "DB_URL="@ + u
            } else {
                "API_KEY="@ + k
            };
            let second = if db_first {
                "API_KEY="@ + k
            } else {
                "DB_URL="@ + u
            };
            spec_parse(first + "\n"@ + second, file) == Ok::<_, Seq<char>>(
                (spec_trim(u), spec_trim(k)),
            )
        }),
{
    let first = if db_first {
        "DB_URL="@ + u
    } else {
        "API_KEY="@ + k
    };
    let second = if db_first {
        "API_KEY="@ + k
    } else {
        "DB_URL="@ + u
    };
    let content = first + "\n"@ + second;
    reveal_strlit("\n");
    reveal_strlit("DB_URL=");
    reveal_strlit("API_KEY=");
    let fl = first.len() as int;
    assert(u.len() > 0 && k.len() > 0) by {
        if u.len() == 0 {
            assert(spec_trim(u).len() == 0);
        }
        if k.len() == 0 {
            assert(spec_trim(k).len() == 0);
        }
    }
    assert(content[fl] == '\n');
    if db_first {
        lemma_no_nl_db(u);
        lemma_no_nl_api(k);
    } else {
        lemma_no_nl_api(k);
        lemma_no_nl_db(u);
    }
    assert forall|j: int| 0 <= j < fl implies content[j] != '\n' by {
        assert(content[j] == first[j]);
    }
    lemma_find_char_scan(content, '\n', 0, fl);
    assert(spec_find_char(content, '\n', 0) == Some(fl));
    assert forall|j: int| fl + 1 <= j < content.len() implies content[j] != '\n' by {
        assert(content[j] == second[j - (fl + 1)]);
    }
    lemma_find_char_scan(content, '\n', fl + 1, content.len() as int);
    assert(spec_find_char(content, '\n', fl + 1) is None);
    assert(content.take(fl) =~= first);
    assert(content.skip(fl + 1) =~= second);
    assert(spec_lines_from(content, fl + 1) == seq![second]);
    let line1 = spec_strip_cr(first);
    let lines = spec_lines(content);
    assert(lines =~~= seq![line1, second]);
    let tu = spec_trim(u);
    let tk = spec_trim(k);
    // A trailing carriage return on the first physical line belongs to that
    // line's value; line splitting drops it and trimming would have too.
    if db_first {
        if first[fl - 1] == '\r' {
            assert(u[u.len() - 1] == '\r');
            assert(first.drop_last() =~= "DB_URL="@ + u.drop_last());
            lemma_trim_drop_last_space(u);
            lemma_db_line(u.drop_last(), file, 1);
        } else {
            assert(line1 == first);
            lemma_db_line(u, file, 1);
        }
        lemma_api_line(k, file, 2);
        assert(spec_line_result(lines[0], file, 1) == Ok::<_, Seq<char>>((true, tu)));
        assert(spec_line_result(lines[1], file, 2) == Ok::<_, Seq<char>>((false, tk)));
        assert(spec_parse_from(lines, file, 2, Some(tu), Some(tk)) == Ok::<_, Seq<char>>(
            (tu, tk),
        ));
        assert(spec_parse_from(lines, file, 1, Some(tu), None) == Ok::<_, Seq<char>>((tu, tk)));
        assert(spec_parse_from(lines, file, 0, None, None) == Ok::<_, Seq<char>>((tu, tk)));
    } else {
        if first[fl - 1] == '\r' {
            assert(k[k.len() - 1] == '\r');
            assert(first.drop_last() =~= "API_KEY="@ + k.drop_last());
            lemma_trim_drop_last_space(k);
            lemma_api_line(k.drop_last(), file, 1);
        } else {
            assert(line1 == first);
            lemma_api_line(k, file, 1);
        }
        lemma_db_line(u, file, 2);
        assert(spec_line_result(lines[0], file, 1) == Ok::<_, Seq<char>>((false, tk)));
        assert(spec_line_result(lines[1], file, 2) == Ok::<_, Seq<char>>((true, tu)));
        assert(spec_parse_from(lines, file, 2, Some(tu), Some(tk)) == Ok::<_, Seq<char>>(
            (tu, tk),
        ));
        assert(spec_parse_from(lines, file, 1, None, Some(tk)) == Ok::<_, Seq<char>>((tu, tk)));
        assert(spec_parse_from(lines, file, 0, None, None) == Ok::<_, Seq<char>>((tu, tk)));
    }
    assert(spec_parse(content, file) == Ok::<_, Seq<char>>((spec_trim(u), spec_trim(k))));
}

/// When every line is well formed but none sets `DB_URL`, the parse reports
/// the missing `DB_URL` — before a missing `API_KEY`, even when both are
/// absent.
pub proof fn lemma_missing_db_url_wins(lines: Seq<Seq<char>>, file: Seq<char>)
    requires
        forall|j: int|
            0 <= j < lines.len() ==> !(#[trigger] spec_line_result(lines[j], file, (j + 1) as nat)
                is Err),
        forall|j: int|
            0 <= j < lines.len() ==> !(#[trigger] spec_line_result(
                lines[j],
                file,
                (j + 1) as nat,
            ) matches Ok((true, _))),
    ensures
        spec_parse_from(lines, file, 0, None, None) == Err::<(Seq<char>, Seq<char>), _>(
            spec_msg_missing_db_url(file),
        ),
{
    lemma_missing_db_url_from(lines, file, 0, None);
}

proof fn lemma_missing_db_url_from(
    lines: Seq<Seq<char>>,
    file: Seq<char>,
    i: int,
    api: Option<Seq<char>>,
)
    requires
        0 <= i <= lines.len(),
        forall|j: int|
            0 <= j < lines.len() ==> !(#[trigger] spec_line_result(lines[j], file, (j + 1) as nat)
                is Err),
        forall|j: int|
            0 <= j < lines.len() ==> !(#[trigger] spec_line_result(
                lines[j],
                file,
                (j + 1) as nat,
            ) matches Ok((true, _))),
    ensures
        spec_parse_from(lines, file, i, None, api) == Err::<(Seq<char>, Seq<char>), _>(
            spec_msg_missing_db_url(file),
        ),
    decreases lines.len() - i,
{
    if i < lines.len() {
        match spec_line_result(lines[i], file, (i + 1) as nat) {
            Ok((is_db, v)) => {
                assert(!is_db);
                lemma_missing_db_url_from(lines, file, i + 1, Some(v));
            },
            Err(m) => {
                assert(false);
            },
        }
    }
}

} // verus!
