//! The settings file format.
//!
//! `settings.json` is this project's own format: a JSON object with the
//! optional sections `storage` (mode, cloud path, pending migration) and
//! `ai` (provider, endpoint).  `render_settings` writes the record in one
//! canonical pretty shape; `parse_settings` reads it back, tolerating
//! missing fields, unknown fields, reordered members and free whitespace,
//! and returns the default record for anything malformed — a broken file
//! never stops a launch.
//!
//! Both directions are under contract on `parse_settings` itself: parsing
//! what `render_settings` wrote yields the record it was given, and every
//! other text is read against `spec_parse_doc`, the specification of the
//! tolerant grammar — members recognized there appear in the result, and
//! text the grammar rejects yields the default record.

use vstd::prelude::*;
use crate::settings::{AiSettings, AppSettings, MigrationSettings, StorageSettings};

verus! {

/// A string that renders into a JSON string literal verbatim: it contains
/// no quote, no backslash, and no control character.
pub open spec fn json_safe(s: Seq<char>) -> bool {
    forall|i: int| 0 <= i < s.len() ==> s[i] != '"' && s[i] != '\\' && (s[i] as u32) >= 32
}

/// How one character is written inside a string literal: quotes and
/// backslashes get their short escapes, control characters a `\u00XX`
/// escape, everything else stands verbatim.
pub open spec fn esc_char(c: char) -> Seq<char> {
    if c == '"' {
        seq!['\\', '"']
    } else if c == '\\' {
        seq!['\\', '\\']
    } else if (c as u32) < 32 {
        seq!['\\', 'u', '0', '0', crate::text::hex_digit((c as u32 / 16) as nat), crate::text::hex_digit(
            (c as u32 % 16) as nat,
        )]
    } else {
        seq![c]
    }
}

/// How a whole string is written inside a string literal.
pub open spec fn escape_chars(s: Seq<char>) -> Seq<char>
    decreases s.len(),
{
    if s.len() == 0 {
        Seq::empty()
    } else {
        esc_char(s[0]) + escape_chars(s.subrange(1, s.len() as int))
    }
}

/// A string literal: quote, escaped contents, quote.
pub open spec fn spec_quoted(w: Seq<char>) -> Seq<char> {
    seq!['"'] + w + seq!['"']
}

/// An optional string field: `null` or a string literal.
pub open spec fn spec_opt_str(v: Option<String>) -> Seq<char> {
    match v {
        Some(s) => spec_quoted(escape_chars(s@)),
        None => "null"@,
    }
}

/// The `migration` member: `null` or the request object.
pub open spec fn spec_migration_part(v: Option<MigrationSettings>) -> Seq<char> {
    match v {
        None => "null"@,
        Some(m) => "{\n      \"from\": "@ + spec_quoted(escape_chars(m.from@))
            + ",\n      \"to\": "@ + spec_quoted(escape_chars(m.to@))
            + ",\n      \"requestedAt\": "@ + spec_opt_str(m.requested_at) + "\n    }"@,
    }
}

/// The `storage` member: `null` or the storage object.
pub open spec fn spec_storage_part(v: Option<StorageSettings>) -> Seq<char> {
    match v {
        None => "null"@,
        Some(st) => "{\n    \"mode\": "@ + spec_opt_str(st.mode) + ",\n    \"icloudPath\": "@
            + spec_opt_str(st.icloud_path) + ",\n    \"migration\": "@ + spec_migration_part(
            st.migration,
        ) + "\n  }"@,
    }
}

/// The `ai` member: `null` or the AI object.
pub open spec fn spec_ai_part(v: Option<AiSettings>) -> Seq<char> {
    match v {
        None => "null"@,
        Some(ai) => "{\n    \"provider\": "@ + spec_opt_str(ai.provider)
            + ",\n    \"endpoint\": "@ + spec_opt_str(ai.endpoint) + "\n  }"@,
    }
}

/// The canonical rendering of the whole record.
pub open spec fn spec_render_settings(s: AppSettings) -> Seq<char> {
    "{\n  \"storage\": "@ + spec_storage_part(s.storage) + ",\n  \"ai\": "@ + spec_ai_part(s.ai)
        + "\n}"@
}

/// Every string present in the record renders verbatim.
pub open spec fn wf_settings(s: AppSettings) -> bool {
    &&& match s.storage {
        Some(st) => {
            &&& (st.mode matches Some(m) ==> json_safe(m@))
            &&& (st.icloud_path matches Some(p) ==> json_safe(p@))
            &&& match st.migration {
                Some(m) => json_safe(m.from@) && json_safe(m.to@) && (m.requested_at matches Some(
                    a,
                ) ==> json_safe(a@)),
                None => true,
            }
        },
        None => true,
    }
    &&& match s.ai {
        Some(ai) => (ai.provider matches Some(p) ==> json_safe(p@)) && (ai.endpoint matches Some(e)
            ==> json_safe(e@)),
        None => true,
    }
}

/// Escaping distributes over concatenation.
proof fn lemma_escape_append(a: Seq<char>, b: Seq<char>)
    ensures
        escape_chars(a + b) == escape_chars(a) + escape_chars(b),
    decreases a.len(),
{
    if a.len() == 0 {
        assert(a + b =~= b);
        assert(escape_chars(a) =~= Seq::<char>::empty());
    } else {
        let ab = a + b;
        assert(ab[0] == a[0]);
        assert(ab.subrange(1, ab.len() as int) =~= a.subrange(1, a.len() as int) + b);
        lemma_escape_append(a.subrange(1, a.len() as int), b);
        assert(escape_chars(a + b) =~= escape_chars(a) + escape_chars(b));
    }
}

/// A safe string escapes to itself.
pub proof fn lemma_safe_escape(s: Seq<char>)
    ensures
        json_safe(s) ==> escape_chars(s) == s,
    decreases s.len(),
{
    if json_safe(s) && s.len() > 0 {
        let tail = s.subrange(1, s.len() as int);
        assert(json_safe(tail));
        lemma_safe_escape(tail);
        assert(esc_char(s[0]) == seq![s[0]]);
        assert(escape_chars(s) =~= s);
    }
}

fn append_escaped(out: &mut String, s: &str)
    ensures
        final(out)@ == old(out)@ + escape_chars(s@),
{
    let n = s.unicode_len();
    let mut i: usize = 0;
    while i < n
        invariant
            i <= n,
            n == s@.len(),
            out@ == old(out)@ + escape_chars(s@.subrange(0, i as int)),
        decreases n - i,
    {
        let ghost prefix = s@.subrange(0, i as int);
        let c = s.get_char(i);
        if c == '"' {
            out.append("\\\"");
            proof {
                reveal_strlit("\\\"");
                assert("\\\""@ =~= esc_char(c));
            }
        } else if c == '\\' {
            out.append("\\\\");
            proof {
                reveal_strlit("\\\\");
                assert("\\\\"@ =~= esc_char(c));
            }
        } else if (c as u32) < 32 {
            let code = c as u32;
            out.append("\\u00");
            out.append(crate::text::hex_digit_str((code / 16) as u64));
            out.append(crate::text::hex_digit_str((code % 16) as u64));
            proof {
                reveal_strlit("\\u00");
                assert("\\u00"@ + seq![crate::text::hex_digit((code / 16) as nat)] + seq![
                    crate::text::hex_digit((code % 16) as nat)
                ] =~= esc_char(c));
            }
        } else {
            let one = s.substring_char(i, i + 1);
            out.append(one);
            proof {
                assert(one@ =~= esc_char(c));
            }
        }
        proof {
            assert(s@.subrange(0, i + 1) =~= prefix + seq![c]);
            lemma_escape_append(prefix, seq![c]);
            assert(seq![c].subrange(1, 1) =~= Seq::<char>::empty());
            assert(escape_chars(seq![c]) =~= esc_char(c) + escape_chars(Seq::<char>::empty()));
            assert(escape_chars(seq![c]) =~= esc_char(c));
            assert(out@ =~= old(out)@ + escape_chars(s@.subrange(0, i + 1)));
        }
        i = i + 1;
    }
    proof {
        assert(s@.subrange(0, s@.len() as int) =~= s@);
    }
}

fn append_opt_str(out: &mut String, v: &Option<String>)
    ensures
        final(out)@ == old(out)@ + spec_opt_str(*v),
{
    match v {
        None => {
            out.append("null");
        },
        Some(s) => {
            out.append("\"");
            append_escaped(out, s.as_str());
            out.append("\"");
            proof {
                reveal_strlit("\"");
                assert("\""@ =~= seq!['"']);
                assert(out@ =~= old(out)@ + spec_quoted(escape_chars(s@)));
            }
        },
    }
}

fn append_migration_part(out: &mut String, v: &Option<MigrationSettings>)
    ensures
        final(out)@ == old(out)@ + spec_migration_part(*v),
{
    match v {
        None => {
            out.append("null");
        },
        Some(m) => {
            out.append("{\n      \"from\": ");
            out.append("\"");
            append_escaped(out, m.from.as_str());
            out.append("\"");
            out.append(",\n      \"to\": ");
            out.append("\"");
            append_escaped(out, m.to.as_str());
            out.append("\"");
            out.append(",\n      \"requestedAt\": ");
            append_opt_str(out, &m.requested_at);
            out.append("\n    }");
            proof {
                reveal_strlit("\"");
                assert("\""@ =~= seq!['"']);
                assert(out@ =~= old(out)@ + spec_migration_part(Some(*m)));
            }
        },
    }
}

fn append_storage_part(out: &mut String, v: &Option<StorageSettings>)
    ensures
        final(out)@ == old(out)@ + spec_storage_part(*v),
{
    match v {
        None => {
            out.append("null");
        },
        Some(st) => {
            out.append("{\n    \"mode\": ");
            append_opt_str(out, &st.mode);
            out.append(",\n    \"icloudPath\": ");
            append_opt_str(out, &st.icloud_path);
            out.append(",\n    \"migration\": ");
            append_migration_part(out, &st.migration);
            out.append("\n  }");
            proof {
                assert(out@ =~= old(out)@ + spec_storage_part(Some(*st)));
            }
        },
    }
}

fn append_ai_part(out: &mut String, v: &Option<AiSettings>)
    ensures
        final(out)@ == old(out)@ + spec_ai_part(*v),
{
    match v {
        None => {
            out.append("null");
        },
        Some(ai) => {
            out.append("{\n    \"provider\": ");
            append_opt_str(out, &ai.provider);
            out.append(",\n    \"endpoint\": ");
            append_opt_str(out, &ai.endpoint);
            out.append("\n  }");
            proof {
                assert(out@ =~= old(out)@ + spec_ai_part(Some(*ai)));
            }
        },
    }
}


/// Two adjacent regions join into one holding the concatenation.
proof fn lemma_join_region(t: Seq<char>, i: int, m: int, j: int, a: Seq<char>, b: Seq<char>)
    requires
        0 <= i <= m <= j <= t.len(),
        t.subrange(i, m) == a,
        t.subrange(m, j) == b,
    ensures
        t.subrange(i, j) == a + b,
{
    assert(t.subrange(i, j) =~= a + b);
}

/// A region of `t` that holds a concatenation splits into its two halves.
proof fn lemma_split_region(t: Seq<char>, i: int, a: Seq<char>, b: Seq<char>)
    requires
        0 <= i,
        i + a.len() + b.len() <= t.len(),
        t.subrange(i, i + a.len() + b.len()) == a + b,
    ensures
        t.subrange(i, i + a.len()) == a,
        t.subrange(i + a.len(), i + a.len() + b.len()) == b,
{
    let whole = t.subrange(i, i + a.len() + b.len());
    assert forall|k: int| 0 <= k < a.len() implies t.subrange(i, i + a.len())[k] == a[k] by {
        assert(whole[k] == (a + b)[k]);
    }
    assert(t.subrange(i, i + a.len()) =~= a);
    assert forall|k: int| 0 <= k < b.len() implies t.subrange(
        i + a.len(),
        i + a.len() + b.len(),
    )[k] == b[k] by {
        assert(whole[a.len() + k] == (a + b)[a.len() + k]);
    }
    assert(t.subrange(i + a.len(), i + a.len() + b.len()) =~= b);
}

/// What a region equal to a quoted literal pins down, character by
/// character.
proof fn lemma_quoted_region(t: Seq<char>, i: int, w: Seq<char>)
    requires
        0 <= i,
        i + w.len() + 2 <= t.len(),
        t.subrange(i, i + w.len() + 2) == spec_quoted(w),
    ensures
        t[i] == '"',
        t[i + w.len() + 1] == '"',
        forall|k: int| 0 <= k < w.len() ==> t[i + 1 + k] == w[k],
{
    let q = spec_quoted(w);
    let region = t.subrange(i, i + w.len() + 2);
    assert(region[0] == t[i] && q[0] == '"');
    assert(region[w.len() as int + 1] == t[i + w.len() + 1] && q[w.len() as int + 1] == '"');
    assert forall|k: int| 0 <= k < w.len() implies t[i + 1 + k] == w[k] by {
        assert(region[1 + k] == t[i + 1 + k]);
        assert(q[1 + k] == w[k]);
    }
}

/// Matches the exact characters of `lit` at position `i`.
fn match_lit(t: &str, i: usize, lit: &str) -> (r: Option<usize>)
    ensures
        r matches Some(j) ==> j == i + lit@.len() && i + lit@.len() <= t@.len() && t@.subrange(
            i as int,
            i + lit@.len(),
        ) == lit@,
        r is None ==> !(i + lit@.len() <= t@.len() && t@.subrange(i as int, i + lit@.len())
            == lit@),
{
    let n = t.unicode_len();
    let m = lit.unicode_len();
    if m > n || i > n - m {
        return None;
    }
    let mut k: usize = 0;
    while k < m
        invariant
            k <= m,
            i + m <= n,
            n == t@.len(),
            m == lit@.len(),
            forall|x: int| 0 <= x < k ==> t@[i + x] == lit@[x],
        decreases m - k,
    {
        if t.get_char(i + k) != lit.get_char(k) {
            proof {
                if i + m <= t@.len() && t@.subrange(i as int, i + m) == lit@ {
                    assert(t@.subrange(i as int, i + m)[k as int] == t@[i + k]);
                }
            }
            return None;
        }
        k = k + 1;
    }
    proof {
        assert(t@.subrange(i as int, i + m) =~= lit@);
    }
    Some(i + m)
}

/// Reads a string literal written verbatim (no escapes) at position `i`.
fn read_quoted(t: &str, i: usize) -> (r: Option<(String, usize)>)
    ensures
        forall|w: Seq<char>|
            #![trigger spec_quoted(w)]
            json_safe(w) && i + w.len() + 2 <= t@.len() && t@.subrange(
                i as int,
                i + w.len() + 2,
            ) == spec_quoted(w) ==> (r matches Some(p) && p.0@ == w && p.1 == i + w.len() + 2),
        r matches Some(p) ==> json_safe(p.0@) && i + p.0@.len() + 2 == p.1 && p.1 <= t@.len()
            && t@.subrange(i as int, p.1 as int) == spec_quoted(p.0@),
{
    let n = t.unicode_len();
    if i >= n || t.get_char(i) != '"' {
        proof {
            assert forall|w: Seq<char>|
                json_safe(w) && i + w.len() + 2 <= t@.len() && t@.subrange(i as int, i + w.len() + 2)
                    == spec_quoted(w) implies false by {
                lemma_quoted_region(t@, i as int, w);
            }
        }
        return None;
    }
    let mut j = i + 1;
    while j < n && t.get_char(j) != '"' && t.get_char(j) != '\\' && t.get_char(j) as u32 >= 32
        invariant
            i + 1 <= j <= n,
            n == t@.len(),
            forall|k: int|
                i + 1 <= k < j ==> t@[k] != '"' && t@[k] != '\\' && (t@[k] as u32) >= 32,
        decreases n - j,
    {
        j = j + 1;
    }
    if j >= n || t.get_char(j) != '"' {
        proof {
            assert forall|w: Seq<char>|
                json_safe(w) && i + w.len() + 2 <= t@.len() && t@.subrange(i as int, i + w.len() + 2)
                    == spec_quoted(w) implies false by {
                lemma_quoted_region(t@, i as int, w);
                let close = i + w.len() + 1;
                if (j as int) < close {
                    assert(t@[j as int] == w[j - i - 1]);
                }
                if (j as int) > close {
                    assert(t@[close] != '"');
                }
            }
        }
        return None;
    }
    let v = t.substring_char(i + 1, j).to_owned();
    proof {
        assert(json_safe(v@));
        assert(t@.subrange(i as int, j + 1) =~= spec_quoted(v@));
        assert forall|w: Seq<char>|
            json_safe(w) && i + w.len() + 2 <= t@.len() && t@.subrange(i as int, i + w.len() + 2)
                == spec_quoted(w) implies v@ == w && j + 1 == i + w.len() + 2 by {
            lemma_quoted_region(t@, i as int, w);
            let close = i + w.len() + 1;
            if (j as int) < close {
                assert(t@[j as int] == w[j - i - 1]);
                assert(false);
            }
            if (j as int) > close {
                assert(t@[close] != '"');
                assert(false);
            }
            assert(v@ =~= w);
        }
    }
    Some((v, j + 1))
}

/// Reads `null` or a verbatim string literal at position `i`.
fn parse_opt_str_part(t: &str, i: usize) -> (r: Option<(Option<String>, usize)>)
    ensures
        forall|v: Option<String>|
            #![trigger spec_opt_str(v)]
            (v matches Some(s) ==> json_safe(s@)) && i + spec_opt_str(v).len() <= t@.len()
                && t@.subrange(i as int, i + spec_opt_str(v).len()) == spec_opt_str(v) ==> (
            r matches Some(p) && crate::settings::same_opt_string(p.0, v) && p.1 == i + spec_opt_str(
                v,
            ).len()),
        r matches Some(p) ==> (p.0 matches Some(s) ==> json_safe(s@)) && i + spec_opt_str(
            p.0,
        ).len() == p.1 && p.1 <= t@.len() && t@.subrange(i as int, p.1 as int) == spec_opt_str(
            p.0,
        ),
{
    match match_lit(t, i, "null") {
        Some(j) => {
            proof {
                assert forall|v: Option<String>|
                    (v matches Some(s) ==> json_safe(s@)) && i + spec_opt_str(v).len() <= t@.len()
                        && t@.subrange(i as int, i + spec_opt_str(v).len()) == spec_opt_str(
                        v,
                    ) implies v is None by {
                    match v {
                        Some(s) => {
                            lemma_quoted_region(t@, i as int, escape_chars(s@));
                            lemma_safe_escape(s@);
                            reveal_strlit("null");
                            assert(t@.subrange(i as int, i + 4)[0] == t@[i as int]);
                        },
                        None => {},
                    }
                }
            }
            proof {
                assert(spec_opt_str(None::<String>) == "null"@);
            }
            Some((None, j))
        },
        None => {
            match read_quoted(t, i) {
                Some((v, j)) => {
                    proof {
                        assert forall|ov: Option<String>|
                            (ov matches Some(s) ==> json_safe(s@)) && i + spec_opt_str(
                                ov,
                            ).len() <= t@.len() && t@.subrange(i as int, i + spec_opt_str(ov).len())
                                == spec_opt_str(ov) implies (ov matches Some(s) && v@ == s@ && j
                            == i + spec_opt_str(ov).len()) by {
                            if ov is None {
                                reveal_strlit("null");
                            } else {
                                let s = ov->0;
                                lemma_safe_escape(s@);
                                assert(spec_quoted(s@) == spec_opt_str(ov));
                                assert(spec_opt_str(ov).len() == s@.len() + 2);
                            }
                        }
                    }
                    proof {
                        lemma_safe_escape(v@);
                        assert(spec_opt_str(Some(v)) == spec_quoted(v@));
                    }
                    Some((Some(v), j))
                },
                None => {
                    proof {
                        assert forall|ov: Option<String>|
                            (ov matches Some(s) ==> json_safe(s@)) && i + spec_opt_str(
                                ov,
                            ).len() <= t@.len() && t@.subrange(i as int, i + spec_opt_str(ov).len())
                                == spec_opt_str(ov) implies false by {
                            if ov is None {
                                reveal_strlit("null");
                            } else {
                                let s = ov->0;
                                lemma_safe_escape(s@);
                                assert(spec_quoted(s@) == spec_opt_str(ov));
                            }
                        }
                    }
                    None
                },
            }
        },
    }
}

/// Safety of every string in a migration request.
pub open spec fn wf_migration(m: MigrationSettings) -> bool {
    json_safe(m.from@) && json_safe(m.to@) && (m.requested_at matches Some(a) ==> json_safe(a@))
}

proof fn lemma_migration_layout(t: Seq<char>, i: int, m: MigrationSettings)
    requires
        wf_migration(m),
        0 <= i,
        i + spec_migration_part(Some(m)).len() <= t.len(),
        t.subrange(i, i + spec_migration_part(Some(m)).len()) == spec_migration_part(Some(m)),
    ensures
        ({
            let a1 = "{\n      \"from\": "@;
            let q1 = spec_quoted(m.from@);
            let a2 = ",\n      \"to\": "@;
            let q2 = spec_quoted(m.to@);
            let a3 = ",\n      \"requestedAt\": "@;
            let q3 = spec_opt_str(m.requested_at);
            let a4 = "\n    }"@;
            let o1 = i + a1.len();
            let o2 = o1 + q1.len();
            let o3 = o2 + a2.len();
            let o4 = o3 + q2.len();
            let o5 = o4 + a3.len();
            let o6 = o5 + q3.len();
            let o7 = o6 + a4.len();
            &&& t.subrange(i, o1) == a1
            &&& t.subrange(o1, o2) == q1
            &&& t.subrange(o2, o3) == a2
            &&& t.subrange(o3, o4) == q2
            &&& t.subrange(o4, o5) == a3
            &&& t.subrange(o5, o6) == q3
            &&& t.subrange(o6, o7) == a4
            &&& o7 == i + spec_migration_part(Some(m)).len()
        }),
{
    lemma_safe_escape(m.from@);
    lemma_safe_escape(m.to@);
    let a1 = "{\n      \"from\": "@;
    let q1 = spec_quoted(m.from@);
    let a2 = ",\n      \"to\": "@;
    let q2 = spec_quoted(m.to@);
    let a3 = ",\n      \"requestedAt\": "@;
    let q3 = spec_opt_str(m.requested_at);
    let a4 = "\n    }"@;
    let total = spec_migration_part(Some(m));
    assert(total =~= a1 + (q1 + (a2 + (q2 + (a3 + (q3 + a4))))));
    lemma_split_region(t, i, a1, q1 + (a2 + (q2 + (a3 + (q3 + a4)))));
    lemma_split_region(t, i + a1.len(), q1, a2 + (q2 + (a3 + (q3 + a4))));
    lemma_split_region(t, i + a1.len() + q1.len(), a2, q2 + (a3 + (q3 + a4)));
    lemma_split_region(t, i + a1.len() + q1.len() + a2.len(), q2, a3 + (q3 + a4));
    lemma_split_region(t, i + a1.len() + q1.len() + a2.len() + q2.len(), a3, q3 + a4);
    lemma_split_region(t, i + a1.len() + q1.len() + a2.len() + q2.len() + a3.len(), q3, a4);
}

/// Reads `null` or the canonical migration object at position `i`.
#[verifier::rlimit(80)]
fn parse_migration_canonical(t: &str, i: usize) -> (r: Option<(Option<MigrationSettings>, usize)>)
    ensures
        forall|v: Option<MigrationSettings>|
            #![trigger spec_migration_part(v)]
            (v matches Some(m) ==> wf_migration(m)) && i + spec_migration_part(v).len() <= t@.len()
                && t@.subrange(i as int, i + spec_migration_part(v).len()) == spec_migration_part(
                v,
            ) ==> (r matches Some(p) && crate::settings::same_migration(p.0, v) && p.1 == i
                + spec_migration_part(v).len()),
        r matches Some(p) ==> (p.0 matches Some(m) ==> wf_migration(m)) && i
            + spec_migration_part(p.0).len() == p.1 && p.1 <= t@.len() && t@.subrange(
            i as int,
            p.1 as int,
        ) == spec_migration_part(p.0),
{
    let ghost hyp = |v: Option<MigrationSettings>|
        (v matches Some(m) ==> wf_migration(m)) && i + spec_migration_part(v).len() <= t@.len()
            && t@.subrange(i as int, i + spec_migration_part(v).len() as int)
            == spec_migration_part(v);
    if let Some(j) = match_lit(t, i, "null") {
        proof {
            assert forall|v: Option<MigrationSettings>| #![trigger spec_migration_part(v)] hyp(v) implies v is None by {
                match v {
                    Some(m) => {
                        lemma_migration_layout(t@, i as int, m);
                        reveal_strlit("null");
                        reveal_strlit("{\n      \"from\": ");
                        assert(t@.subrange(i as int, i + 16)[0] == t@[i as int]);
                        assert(t@.subrange(i as int, i + 4)[0] == t@[i as int]);
                    },
                    None => {},
                }
            }
        }
        proof {
            assert(spec_migration_part(None::<MigrationSettings>) == "null"@);
        }
        return Some((None, j));
    }
    let step1 = match_lit(t, i, "{\n      \"from\": ");
    proof {
        assert forall|v: Option<MigrationSettings>| #![trigger spec_migration_part(v)] hyp(v) implies ((v matches Some(m)) && (step1
            matches Some(j1) && j1 == i + "{\n      \"from\": "@.len())) by {
            match v {
                Some(m) => {
                    lemma_migration_layout(t@, i as int, m);
                },
                None => {},
            }
        }
    }
    let j1 = match step1 {
        Some(j1) => j1,
        None => {
            return None;
        },
    };
    let (from_v, j2) = match read_quoted(t, j1) {
        Some(p) => p,
        None => {
            proof {
                assert forall|v: Option<MigrationSettings>| #![trigger spec_migration_part(v)] hyp(v) implies false by {
                    match v {
                        Some(m) => {
                            lemma_migration_layout(t@, i as int, m);
                        },
                        None => {},
                    }
                }
            }
            return None;
        },
    };
    let step2 = match_lit(t, j2, ",\n      \"to\": ");
    proof {
        assert forall|v: Option<MigrationSettings>| #![trigger spec_migration_part(v)] hyp(v) implies ((v matches Some(m)) && from_v@
            == v->0.from@ && j2 == i + "{\n      \"from\": "@.len() + v->0.from@.len() + 2 && (step2
            matches Some(j3) && j3 == j2 + ",\n      \"to\": "@.len())) by {
            match v {
                Some(m) => {
                    lemma_migration_layout(t@, i as int, m);
                },
                None => {},
            }
        }
    }
    let j3 = match step2 {
        Some(j3) => j3,
        None => {
            return None;
        },
    };
    let (to_v, j4) = match read_quoted(t, j3) {
        Some(p) => p,
        None => {
            proof {
                assert forall|v: Option<MigrationSettings>| #![trigger spec_migration_part(v)] hyp(v) implies false by {
                    match v {
                        Some(m) => {
                            lemma_migration_layout(t@, i as int, m);
                        },
                        None => {},
                    }
                }
            }
            return None;
        },
    };
    let step3 = match_lit(t, j4, ",\n      \"requestedAt\": ");
    proof {
        assert forall|v: Option<MigrationSettings>| #![trigger spec_migration_part(v)] hyp(v) implies ((v matches Some(m)) && to_v@
            == v->0.to@ && (step3 matches Some(j5) && j5 == j4
            + ",\n      \"requestedAt\": "@.len())) by {
            match v {
                Some(m) => {
                    lemma_migration_layout(t@, i as int, m);
                },
                None => {},
            }
        }
    }
    let j5 = match step3 {
        Some(j5) => j5,
        None => {
            return None;
        },
    };
    let (req_v, j6) = match parse_opt_str_part(t, j5) {
        Some(p) => p,
        None => {
            proof {
                assert forall|v: Option<MigrationSettings>| #![trigger spec_migration_part(v)] hyp(v) implies false by {
                    match v {
                        Some(m) => {
                            lemma_migration_layout(t@, i as int, m);
                        },
                        None => {},
                    }
                }
            }
            return None;
        },
    };
    let step4 = match_lit(t, j6, "\n    }");
    proof {
        assert forall|v: Option<MigrationSettings>| #![trigger spec_migration_part(v)] hyp(v) implies ((v matches Some(m))
            && crate::settings::same_opt_string(req_v, v->0.requested_at) && (step4 matches Some(j7)
            && j7 == i + spec_migration_part(v).len())) by {
            match v {
                Some(m) => {
                    lemma_migration_layout(t@, i as int, m);
                },
                None => {},
            }
        }
    }
    let j7 = match step4 {
        Some(j7) => j7,
        None => {
            return None;
        },
    };
    proof {
        let a1 = "{\n      \"from\": "@;
        let q1 = spec_quoted(from_v@);
        let a2 = ",\n      \"to\": "@;
        let q2 = spec_quoted(to_v@);
        let a3 = ",\n      \"requestedAt\": "@;
        let q3 = spec_opt_str(req_v);
        let a4 = "\n    }"@;
        lemma_join_region(t@, i as int, j1 as int, j2 as int, a1, q1);
        lemma_join_region(t@, i as int, j2 as int, j3 as int, a1 + q1, a2);
        lemma_join_region(t@, i as int, j3 as int, j4 as int, a1 + q1 + a2, q2);
        lemma_join_region(t@, i as int, j4 as int, j5 as int, a1 + q1 + a2 + q2, a3);
        lemma_join_region(t@, i as int, j5 as int, j6 as int, a1 + q1 + a2 + q2 + a3, q3);
        lemma_join_region(t@, i as int, j6 as int, j7 as int, a1 + q1 + a2 + q2 + a3 + q3, a4);
        lemma_safe_escape(from_v@);
        lemma_safe_escape(to_v@);
        assert(t@.subrange(i as int, j7 as int) =~= spec_migration_part(
            Some(MigrationSettings { from: from_v, to: to_v, requested_at: req_v }),
        ));
    }
    Some((Some(MigrationSettings { from: from_v, to: to_v, requested_at: req_v }), j7))
}

/// Renders the record in the canonical pretty shape.
pub fn render_settings(s: &AppSettings) -> (r: String)
    ensures
        r@ == spec_render_settings(*s),
{
    let mut out = String::new();
    out.append("{\n  \"storage\": ");
    append_storage_part(&mut out, &s.storage);
    out.append(",\n  \"ai\": ");
    append_ai_part(&mut out, &s.ai);
    out.append("\n}");
    proof {
        assert(out@ =~= spec_render_settings(*s));
    }
    out
}

/// Safety of every string in a storage section.
pub open spec fn wf_storage(st: StorageSettings) -> bool {
    &&& (st.mode matches Some(m) ==> json_safe(m@))
    &&& (st.icloud_path matches Some(p) ==> json_safe(p@))
    &&& (st.migration matches Some(m) ==> wf_migration(m))
}

proof fn lemma_storage_layout(t: Seq<char>, i: int, st: StorageSettings)
    requires
        wf_storage(st),
        0 <= i,
        i + spec_storage_part(Some(st)).len() <= t.len(),
        t.subrange(i, i + spec_storage_part(Some(st)).len()) == spec_storage_part(Some(st)),
    ensures
        ({
            let a1 = "{\n    \"mode\": "@;
            let q1 = spec_opt_str(st.mode);
            let a2 = ",\n    \"icloudPath\": "@;
            let q2 = spec_opt_str(st.icloud_path);
            let a3 = ",\n    \"migration\": "@;
            let q3 = spec_migration_part(st.migration);
            let a4 = "\n  }"@;
            let o1 = i + a1.len();
            let o2 = o1 + q1.len();
            let o3 = o2 + a2.len();
            let o4 = o3 + q2.len();
            let o5 = o4 + a3.len();
            let o6 = o5 + q3.len();
            let o7 = o6 + a4.len();
            &&& t.subrange(i, o1) == a1
            &&& t.subrange(o1, o2) == q1
            &&& t.subrange(o2, o3) == a2
            &&& t.subrange(o3, o4) == q2
            &&& t.subrange(o4, o5) == a3
            &&& t.subrange(o5, o6) == q3
            &&& t.subrange(o6, o7) == a4
            &&& o7 == i + spec_storage_part(Some(st)).len()
        }),
{
    let a1 = "{\n    \"mode\": "@;
    let q1 = spec_opt_str(st.mode);
    let a2 = ",\n    \"icloudPath\": "@;
    let q2 = spec_opt_str(st.icloud_path);
    let a3 = ",\n    \"migration\": "@;
    let q3 = spec_migration_part(st.migration);
    let a4 = "\n  }"@;
    let total = spec_storage_part(Some(st));
    assert(total =~= a1 + (q1 + (a2 + (q2 + (a3 + (q3 + a4))))));
    lemma_split_region(t, i, a1, q1 + (a2 + (q2 + (a3 + (q3 + a4)))));
    lemma_split_region(t, i + a1.len(), q1, a2 + (q2 + (a3 + (q3 + a4))));
    lemma_split_region(t, i + a1.len() + q1.len(), a2, q2 + (a3 + (q3 + a4)));
    lemma_split_region(t, i + a1.len() + q1.len() + a2.len(), q2, a3 + (q3 + a4));
    lemma_split_region(t, i + a1.len() + q1.len() + a2.len() + q2.len(), a3, q3 + a4);
    lemma_split_region(t, i + a1.len() + q1.len() + a2.len() + q2.len() + a3.len(), q3, a4);
}

/// Reads `null` or the canonical storage object at position `i`.
fn parse_storage_canonical(t: &str, i: usize) -> (r: Option<(Option<StorageSettings>, usize)>)
    ensures
        forall|v: Option<StorageSettings>|
            #![trigger spec_storage_part(v)]
            (v matches Some(st) ==> wf_storage(st)) && i + spec_storage_part(v).len() <= t@.len()
                && t@.subrange(i as int, i + spec_storage_part(v).len()) == spec_storage_part(
                v,
            ) ==> (r matches Some(p) && crate::settings::same_storage(p.0, v) && p.1 == i
                + spec_storage_part(v).len()),
        r matches Some(p) ==> (p.0 matches Some(st) ==> wf_storage(st)) && i + spec_storage_part(
            p.0,
        ).len() == p.1 && p.1 <= t@.len() && t@.subrange(i as int, p.1 as int)
            == spec_storage_part(p.0),
{
    let ghost hyp = |v: Option<StorageSettings>|
        (v matches Some(st) ==> wf_storage(st)) && i + spec_storage_part(v).len() <= t@.len()
            && t@.subrange(i as int, i + spec_storage_part(v).len() as int)
            == spec_storage_part(v);
    if let Some(j) = match_lit(t, i, "null") {
        proof {
            assert forall|v: Option<StorageSettings>| #![trigger spec_storage_part(v)] hyp(v)
                implies v is None by {
                match v {
                    Some(st) => {
                        lemma_storage_layout(t@, i as int, st);
                        reveal_strlit("null");
                        reveal_strlit("{\n    \"mode\": ");
                        assert(t@.subrange(i as int, i + 14)[0] == t@[i as int]);
                        assert(t@.subrange(i as int, i + 4)[0] == t@[i as int]);
                    },
                    None => {},
                }
            }
        }
        proof {
            assert(spec_storage_part(None::<StorageSettings>) == "null"@);
        }
        return Some((None, j));
    }
    let step1 = match_lit(t, i, "{\n    \"mode\": ");
    proof {
        assert forall|v: Option<StorageSettings>| #![trigger spec_storage_part(v)] hyp(v) implies (
        (v matches Some(st)) && (step1 matches Some(j1) && j1 == i
            + "{\n    \"mode\": "@.len())) by {
            match v {
                Some(st) => {
                    lemma_storage_layout(t@, i as int, st);
                },
                None => {},
            }
        }
    }
    let j1 = match step1 {
        Some(j1) => j1,
        None => {
            return None;
        },
    };
    let (mode_v, j2) = match parse_opt_str_part(t, j1) {
        Some(p) => p,
        None => {
            proof {
                assert forall|v: Option<StorageSettings>| #![trigger spec_storage_part(v)] hyp(v)
                    implies false by {
                    match v {
                        Some(st) => {
                            lemma_storage_layout(t@, i as int, st);
                        },
                        None => {},
                    }
                }
            }
            return None;
        },
    };
    let step2 = match_lit(t, j2, ",\n    \"icloudPath\": ");
    proof {
        assert forall|v: Option<StorageSettings>| #![trigger spec_storage_part(v)] hyp(v) implies (
        (v matches Some(st)) && crate::settings::same_opt_string(mode_v, v->0.mode) && j2 == i
            + "{\n    \"mode\": "@.len() + spec_opt_str(v->0.mode).len() && (step2 matches Some(j3)
            && j3 == j2 + ",\n    \"icloudPath\": "@.len())) by {
            match v {
                Some(st) => {
                    lemma_storage_layout(t@, i as int, st);
                },
                None => {},
            }
        }
    }
    let j3 = match step2 {
        Some(j3) => j3,
        None => {
            return None;
        },
    };
    let (cloud_v, j4) = match parse_opt_str_part(t, j3) {
        Some(p) => p,
        None => {
            proof {
                assert forall|v: Option<StorageSettings>| #![trigger spec_storage_part(v)] hyp(v)
                    implies false by {
                    match v {
                        Some(st) => {
                            lemma_storage_layout(t@, i as int, st);
                        },
                        None => {},
                    }
                }
            }
            return None;
        },
    };
    let step3 = match_lit(t, j4, ",\n    \"migration\": ");
    proof {
        assert forall|v: Option<StorageSettings>| #![trigger spec_storage_part(v)] hyp(v) implies (
        (v matches Some(st)) && crate::settings::same_opt_string(cloud_v, v->0.icloud_path) && (
        step3 matches Some(j5) && j5 == j4 + ",\n    \"migration\": "@.len())) by {
            match v {
                Some(st) => {
                    lemma_storage_layout(t@, i as int, st);
                },
                None => {},
            }
        }
    }
    let j5 = match step3 {
        Some(j5) => j5,
        None => {
            return None;
        },
    };
    let (mig_v, j6) = match parse_migration_canonical(t, j5) {
        Some(p) => p,
        None => {
            proof {
                assert forall|v: Option<StorageSettings>| #![trigger spec_storage_part(v)] hyp(v)
                    implies false by {
                    match v {
                        Some(st) => {
                            lemma_storage_layout(t@, i as int, st);
                        },
                        None => {},
                    }
                }
            }
            return None;
        },
    };
    let step4 = match_lit(t, j6, "\n  }");
    proof {
        assert forall|v: Option<StorageSettings>| #![trigger spec_storage_part(v)] hyp(v) implies (
        (v matches Some(st)) && crate::settings::same_migration(mig_v, v->0.migration) && (step4
            matches Some(j7) && j7 == i + spec_storage_part(v).len())) by {
            match v {
                Some(st) => {
                    lemma_storage_layout(t@, i as int, st);
                },
                None => {},
            }
        }
    }
    let j7 = match step4 {
        Some(j7) => j7,
        None => {
            return None;
        },
    };
    proof {
        let a1 = "{\n    \"mode\": "@;
        let q1 = spec_opt_str(mode_v);
        let a2 = ",\n    \"icloudPath\": "@;
        let q2 = spec_opt_str(cloud_v);
        let a3 = ",\n    \"migration\": "@;
        let q3 = spec_migration_part(mig_v);
        let a4 = "\n  }"@;
        lemma_join_region(t@, i as int, j1 as int, j2 as int, a1, q1);
        lemma_join_region(t@, i as int, j2 as int, j3 as int, a1 + q1, a2);
        lemma_join_region(t@, i as int, j3 as int, j4 as int, a1 + q1 + a2, q2);
        lemma_join_region(t@, i as int, j4 as int, j5 as int, a1 + q1 + a2 + q2, a3);
        lemma_join_region(t@, i as int, j5 as int, j6 as int, a1 + q1 + a2 + q2 + a3, q3);
        lemma_join_region(t@, i as int, j6 as int, j7 as int, a1 + q1 + a2 + q2 + a3 + q3, a4);
        assert(t@.subrange(i as int, j7 as int) =~= spec_storage_part(
            Some(StorageSettings { mode: mode_v, icloud_path: cloud_v, migration: mig_v }),
        ));
    }
    Some((Some(StorageSettings { mode: mode_v, icloud_path: cloud_v, migration: mig_v }), j7))
}

/// Safety of every string in an AI section.
pub open spec fn wf_ai(ai: AiSettings) -> bool {
    (ai.provider matches Some(p) ==> json_safe(p@)) && (ai.endpoint matches Some(e) ==> json_safe(
        e@,
    ))
}

proof fn lemma_ai_layout(t: Seq<char>, i: int, ai: AiSettings)
    requires
        wf_ai(ai),
        0 <= i,
        i + spec_ai_part(Some(ai)).len() <= t.len(),
        t.subrange(i, i + spec_ai_part(Some(ai)).len()) == spec_ai_part(Some(ai)),
    ensures
        ({
            let a1 = "{\n    \"provider\": "@;
            let q1 = spec_opt_str(ai.provider);
            let a2 = ",\n    \"endpoint\": "@;
            let q2 = spec_opt_str(ai.endpoint);
            let a3 = "\n  }"@;
            let o1 = i + a1.len();
            let o2 = o1 + q1.len();
            let o3 = o2 + a2.len();
            let o4 = o3 + q2.len();
            let o5 = o4 + a3.len();
            &&& t.subrange(i, o1) == a1
            &&& t.subrange(o1, o2) == q1
            &&& t.subrange(o2, o3) == a2
            &&& t.subrange(o3, o4) == q2
            &&& t.subrange(o4, o5) == a3
            &&& o5 == i + spec_ai_part(Some(ai)).len()
        }),
{
    let a1 = "{\n    \"provider\": "@;
    let q1 = spec_opt_str(ai.provider);
    let a2 = ",\n    \"endpoint\": "@;
    let q2 = spec_opt_str(ai.endpoint);
    let a3 = "\n  }"@;
    let total = spec_ai_part(Some(ai));
    assert(total =~= a1 + (q1 + (a2 + (q2 + a3))));
    lemma_split_region(t, i, a1, q1 + (a2 + (q2 + a3)));
    lemma_split_region(t, i + a1.len(), q1, a2 + (q2 + a3));
    lemma_split_region(t, i + a1.len() + q1.len(), a2, q2 + a3);
    lemma_split_region(t, i + a1.len() + q1.len() + a2.len(), q2, a3);
}

/// Reads `null` or the canonical AI object at position `i`.
fn parse_ai_canonical(t: &str, i: usize) -> (r: Option<(Option<AiSettings>, usize)>)
    ensures
        forall|v: Option<AiSettings>|
            #![trigger spec_ai_part(v)]
            (v matches Some(ai) ==> wf_ai(ai)) && i + spec_ai_part(v).len() <= t@.len()
                && t@.subrange(i as int, i + spec_ai_part(v).len()) == spec_ai_part(v) ==> (
            r matches Some(p) && crate::settings::same_ai(p.0, v) && p.1 == i + spec_ai_part(
                v,
            ).len()),
        r matches Some(p) ==> (p.0 matches Some(ai) ==> wf_ai(ai)) && i + spec_ai_part(
            p.0,
        ).len() == p.1 && p.1 <= t@.len() && t@.subrange(i as int, p.1 as int) == spec_ai_part(
            p.0,
        ),
{
    let ghost hyp = |v: Option<AiSettings>|
        (v matches Some(ai) ==> wf_ai(ai)) && i + spec_ai_part(v).len() <= t@.len()
            && t@.subrange(i as int, i + spec_ai_part(v).len() as int) == spec_ai_part(v);
    if let Some(j) = match_lit(t, i, "null") {
        proof {
            assert forall|v: Option<AiSettings>| #![trigger spec_ai_part(v)] hyp(v)
                implies v is None by {
                match v {
                    Some(ai) => {
                        lemma_ai_layout(t@, i as int, ai);
                        reveal_strlit("null");
                        reveal_strlit("{\n    \"provider\": ");
                        assert(t@.subrange(i as int, i + 18)[0] == t@[i as int]);
                        assert(t@.subrange(i as int, i + 4)[0] == t@[i as int]);
                    },
                    None => {},
                }
            }
        }
        proof {
            assert(spec_ai_part(None::<AiSettings>) == "null"@);
        }
        return Some((None, j));
    }
    let step1 = match_lit(t, i, "{\n    \"provider\": ");
    proof {
        assert forall|v: Option<AiSettings>| #![trigger spec_ai_part(v)] hyp(v) implies ((
        v matches Some(ai)) && (step1 matches Some(j1) && j1 == i
            + "{\n    \"provider\": "@.len())) by {
            match v {
                Some(ai) => {
                    lemma_ai_layout(t@, i as int, ai);
                },
                None => {},
            }
        }
    }
    let j1 = match step1 {
        Some(j1) => j1,
        None => {
            return None;
        },
    };
    let (prov_v, j2) = match parse_opt_str_part(t, j1) {
        Some(p) => p,
        None => {
            proof {
                assert forall|v: Option<AiSettings>| #![trigger spec_ai_part(v)] hyp(v)
                    implies false by {
                    match v {
                        Some(ai) => {
                            lemma_ai_layout(t@, i as int, ai);
                        },
                        None => {},
                    }
                }
            }
            return None;
        },
    };
    let step2 = match_lit(t, j2, ",\n    \"endpoint\": ");
    proof {
        assert forall|v: Option<AiSettings>| #![trigger spec_ai_part(v)] hyp(v) implies ((
        v matches Some(ai)) && crate::settings::same_opt_string(prov_v, v->0.provider) && (step2
            matches Some(j3) && j3 == j2 + ",\n    \"endpoint\": "@.len())) by {
            match v {
                Some(ai) => {
                    lemma_ai_layout(t@, i as int, ai);
                },
                None => {},
            }
        }
    }
    let j3 = match step2 {
        Some(j3) => j3,
        None => {
            return None;
        },
    };
    let (end_v, j4) = match parse_opt_str_part(t, j3) {
        Some(p) => p,
        None => {
            proof {
                assert forall|v: Option<AiSettings>| #![trigger spec_ai_part(v)] hyp(v)
                    implies false by {
                    match v {
                        Some(ai) => {
                            lemma_ai_layout(t@, i as int, ai);
                        },
                        None => {},
                    }
                }
            }
            return None;
        },
    };
    let step3 = match_lit(t, j4, "\n  }");
    proof {
        assert forall|v: Option<AiSettings>| #![trigger spec_ai_part(v)] hyp(v) implies ((
        v matches Some(ai)) && crate::settings::same_opt_string(end_v, v->0.endpoint) && (step3
            matches Some(j5) && j5 == i + spec_ai_part(v).len())) by {
            match v {
                Some(ai) => {
                    lemma_ai_layout(t@, i as int, ai);
                },
                None => {},
            }
        }
    }
    let j5 = match step3 {
        Some(j5) => j5,
        None => {
            return None;
        },
    };
    proof {
        let a1 = "{\n    \"provider\": "@;
        let q1 = spec_opt_str(prov_v);
        let a2 = ",\n    \"endpoint\": "@;
        let q2 = spec_opt_str(end_v);
        let a3 = "\n  }"@;
        lemma_join_region(t@, i as int, j1 as int, j2 as int, a1, q1);
        lemma_join_region(t@, i as int, j2 as int, j3 as int, a1 + q1, a2);
        lemma_join_region(t@, i as int, j3 as int, j4 as int, a1 + q1 + a2, q2);
        lemma_join_region(t@, i as int, j4 as int, j5 as int, a1 + q1 + a2 + q2, a3);
        assert(t@.subrange(i as int, j5 as int) =~= spec_ai_part(
            Some(AiSettings { provider: prov_v, endpoint: end_v }),
        ));
    }
    Some((Some(AiSettings { provider: prov_v, endpoint: end_v }), j5))
}

proof fn lemma_settings_layout(t: Seq<char>, s: AppSettings)
    requires
        wf_settings(s),
        t == spec_render_settings(s),
    ensures
        ({
            let a1 = "{\n  \"storage\": "@;
            let q1 = spec_storage_part(s.storage);
            let a2 = ",\n  \"ai\": "@;
            let q2 = spec_ai_part(s.ai);
            let a3 = "\n}"@;
            let o1 = a1.len() as int;
            let o2 = o1 + q1.len();
            let o3 = o2 + a2.len();
            let o4 = o3 + q2.len();
            let o5 = o4 + a3.len();
            &&& t.subrange(0, o1) == a1
            &&& t.subrange(o1, o2) == q1
            &&& t.subrange(o2, o3) == a2
            &&& t.subrange(o3, o4) == q2
            &&& t.subrange(o4, o5) == a3
            &&& o5 == t.len()
            &&& (s.storage matches Some(st) ==> wf_storage(st))
            &&& (s.ai matches Some(ai) ==> wf_ai(ai))
        }),
{
    let a1 = "{\n  \"storage\": "@;
    let q1 = spec_storage_part(s.storage);
    let a2 = ",\n  \"ai\": "@;
    let q2 = spec_ai_part(s.ai);
    let a3 = "\n}"@;
    assert(t =~= a1 + (q1 + (a2 + (q2 + a3))));
    assert(t.subrange(0, t.len() as int) =~= t);
    lemma_split_region(t, 0, a1, q1 + (a2 + (q2 + a3)));
    lemma_split_region(t, a1.len() as int, q1, a2 + (q2 + a3));
    lemma_split_region(t, a1.len() + q1.len() as int, a2, q2 + a3);
    lemma_split_region(t, a1.len() + q1.len() + a2.len() as int, q2, a3);
}

/// Reads a whole record in the exact canonical shape, or reports that the
/// text is not canonical.
#[verifier::rlimit(60)]
#[verifier::spinoff_prover]
fn parse_canonical(t: &str) -> (r: Option<AppSettings>)
    ensures
        forall|s: AppSettings|
            #![trigger spec_render_settings(s)]
            wf_settings(s) && t@ == spec_render_settings(s) ==> (r matches Some(out)
                && crate::settings::same_settings(out, s)),
        r is Some ==> t@.len() > 4 && t@[0] == '{' && t@[1] == '\n' && t@[2] == ' ' && t@[3]
            == ' ' && t@[4] == '"',
        r matches Some(out) ==> wf_settings(out) && t@ == spec_render_settings(out),
{
    let ghost hyp = |s: AppSettings| wf_settings(s) && t@ == spec_render_settings(s);
    let n = t.unicode_len();
    let step1 = match_lit(t, 0, "{\n  \"storage\": ");
    proof {
        assert forall|s: AppSettings| #![trigger spec_render_settings(s)] hyp(s) implies (step1
            matches Some(j1) && j1 == "{\n  \"storage\": "@.len()) by {
            lemma_settings_layout(t@, s);
        }
    }
    let j1 = match step1 {
        Some(j1) => j1,
        None => {
            return None;
        },
    };
    let (storage_v, j2) = match parse_storage_canonical(t, j1) {
        Some(p) => p,
        None => {
            proof {
                assert forall|s: AppSettings| #![trigger spec_render_settings(s)] hyp(s)
                    implies false by {
                    lemma_settings_layout(t@, s);
                }
            }
            return None;
        },
    };
    let step2 = match_lit(t, j2, ",\n  \"ai\": ");
    proof {
        assert forall|s: AppSettings| #![trigger spec_render_settings(s)] hyp(s) implies (
        crate::settings::same_storage(storage_v, s.storage) && (step2 matches Some(j3) && j3 == j2
            + ",\n  \"ai\": "@.len())) by {
            lemma_settings_layout(t@, s);
        }
    }
    let j3 = match step2 {
        Some(j3) => j3,
        None => {
            return None;
        },
    };
    let (ai_v, j4) = match parse_ai_canonical(t, j3) {
        Some(p) => p,
        None => {
            proof {
                assert forall|s: AppSettings| #![trigger spec_render_settings(s)] hyp(s)
                    implies false by {
                    lemma_settings_layout(t@, s);
                }
            }
            return None;
        },
    };
    let step3 = match_lit(t, j4, "\n}");
    proof {
        assert forall|s: AppSettings| #![trigger spec_render_settings(s)] hyp(s) implies (
        crate::settings::same_ai(ai_v, s.ai) && (step3 matches Some(j5) && j5 == t@.len())) by {
            lemma_settings_layout(t@, s);
        }
    }
    let j5 = match step3 {
        Some(j5) => j5,
        None => {
            return None;
        },
    };
    if j5 != n {
        proof {
            assert forall|s: AppSettings| #![trigger spec_render_settings(s)] hyp(s)
                implies false by {
                lemma_settings_layout(t@, s);
            }
        }
        return None;
    }
    proof {
        reveal_strlit("{\n  \"storage\": ");
        let lit = "{\n  \"storage\": "@;
        assert(lit.len() == 15 && lit[0] == '{' && lit[1] == '\n' && lit[2] == ' ' && lit[3]
            == ' ' && lit[4] == '"');
        assert(t@.subrange(0, lit.len() as int) == lit);
        assert(t@.len() >= lit.len());
        assert(t@.subrange(0, lit.len() as int)[0] == t@[0]);
        assert(t@.subrange(0, lit.len() as int)[1] == t@[1]);
        assert(t@.subrange(0, lit.len() as int)[2] == t@[2]);
        assert(t@.subrange(0, lit.len() as int)[3] == t@[3]);
        assert(t@.subrange(0, lit.len() as int)[4] == t@[4]);
        let a1 = lit;
        let q1 = spec_storage_part(storage_v);
        let a2 = ",\n  \"ai\": "@;
        let q2 = spec_ai_part(ai_v);
        let a3 = "\n}"@;
        lemma_join_region(t@, 0, j1 as int, j2 as int, a1, q1);
        lemma_join_region(t@, 0, j2 as int, j3 as int, a1 + q1, a2);
        lemma_join_region(t@, 0, j3 as int, j4 as int, a1 + q1 + a2, q2);
        lemma_join_region(t@, 0, j4 as int, j5 as int, a1 + q1 + a2 + q2, a3);
        assert(t@.subrange(0, j5 as int) =~= t@);
        assert(t@ =~= spec_render_settings(AppSettings { storage: storage_v, ai: ai_v }));
    }
    Some(AppSettings { storage: storage_v, ai: ai_v })
}

/// The first index at or after `i` that holds no JSON whitespace.
pub open spec fn spec_skip_ws(t: Seq<char>, i: int) -> int
    recommends
        0 <= i <= t.len(),
    decreases t.len() - i,
{
    if i < 0 || i >= t.len() {
        t.len() as int
    } else if t[i] == ' ' || t[i] == '\n' || t[i] == '\r' || t[i] == '\t' {
        spec_skip_ws(t, i + 1)
    } else {
        i
    }
}

/// Whether the text has the outer shape of a settings document: a JSON
/// object brace after optional leading whitespace.  Text without it cannot
/// hold any settings and is read as the default record.
pub open spec fn spec_doc_shape(t: Seq<char>) -> bool {
    spec_skip_ws(t, 0) < t.len() && t[spec_skip_ws(t, 0)] == '{'
}

/// Whether the document is an object with no members: `{`, then `}` after
/// optional whitespace.  Such a file holds nothing, so every field of the
/// record it yields is absent.
pub open spec fn spec_empty_object(t: Seq<char>) -> bool {
    let i0 = spec_skip_ws(t, 0);
    let j = spec_skip_ws(t, i0 + 1);
    i0 < t.len() && t[i0] == '{' && j < t.len() && t[j] == '}'
}

fn is_ws(c: char) -> (r: bool)
    ensures
        r == (c == ' ' || c == '\n' || c == '\r' || c == '\t'),
{
    c == ' ' || c == '\n' || c == '\r' || c == '\t'
}

fn skip_ws(t: &str, i: usize) -> (j: usize)
    requires
        i <= t@.len(),
    ensures
        i <= j <= t@.len(),
        j as int == spec_skip_ws(t@, i as int),
{
    let n = t.unicode_len();
    let mut j = i;
    while j < n && is_ws(t.get_char(j))
        invariant
            i <= j <= n,
            n == t@.len(),
            spec_skip_ws(t@, i as int) == spec_skip_ws(t@, j as int),
        decreases n - j,
    {
        j = j + 1;
    }
    j
}

fn str_eq(a: &str, b: &str) -> (r: bool)
    ensures
        r == (a@ == b@),
{
    let na = a.unicode_len();
    let nb = b.unicode_len();
    if na != nb {
        proof {
            assert(a@ != b@);
        }
        return false;
    }
    let mut k: usize = 0;
    while k < na
        invariant
            k <= na,
            na == a@.len(),
            nb == b@.len(),
            na == nb,
            forall|x: int| 0 <= x < k ==> a@[x] == b@[x],
        decreases na - k,
    {
        if a.get_char(k) != b.get_char(k) {
            return false;
        }
        k = k + 1;
    }
    proof {
        assert(a@ =~= b@);
    }
    true
}

/// Relies on String::push: appends the given character to the end of the
/// string, as its documentation says.
#[verifier::external_body]
fn push_char(out: &mut String, c: char)
    ensures
        final(out)@ == old(out)@ + seq![c],
{
    out.push(c);
}

/// Relies on char::from_u32: `Some` exactly on valid Unicode scalar values
/// (not a surrogate, not above the maximum), and the character converts
/// back to the same number, as its documentation says.
pub assume_specification[ char::from_u32 ](i: u32) -> (r: Option<char>)
    ensures
        r is Some <==> (i < 0xD800 || (0xE000 <= i && i <= 0x10FFFF)),
        r matches Some(c) ==> c as u32 == i && c == char_of_code(i),
;

fn hex_val(c: char) -> (r: Option<u32>)
    ensures
        r == spec_hex_val(c),
        r matches Some(v) ==> v < 16,
{
    let code = c as u32;
    if 48 <= code && code <= 57 {
        Some(code - 48)
    } else if 97 <= code && code <= 102 {
        Some(code - 87)
    } else if 65 <= code && code <= 70 {
        Some(code - 55)
    } else {
        None
    }
}

/// Reads a string literal, honoring the common escapes.
fn read_string_esc(t: &str, i: usize) -> (r: Option<(String, usize)>)
    requires
        i <= t@.len(),
    ensures
        r matches Some(p) ==> i < p.1 <= t@.len(),
        match spec_read_string(t@, i as int) {
            Some(p) => r matches Some(q) && q.0@ == p.0 && q.1 as int == p.1,
            None => r is None,
        },
{
    let n = t.unicode_len();
    if i >= n || t.get_char(i) != '"' {
        return None;
    }
    let mut out = String::new();
    let mut j = i + 1;
    while j < n
        invariant
            i + 1 <= j <= n,
            n == t@.len(),
            t@[i as int] == '"',
            spec_read_string(t@, i as int) == spec_read_string_tail(t@, j as int, out@),
        decreases n - j,
    {
        let c = t.get_char(j);
        if c == '"' {
            return Some((out, j + 1));
        }
        if c == '\\' {
            if j + 1 >= n {
                return None;
            }
            let ghost out0 = out@;
            let ghost jj = j as int;
            let e = t.get_char(j + 1);
            if e == '"' {
                out.append("\"");
                proof {
                    reveal_strlit("\"");
                    assert(out@ =~= out0.push('"'));
                    assert(spec_escape_code(t@, jj) == Some(('"', jj + 2)));
                }
            } else if e == '\\' {
                out.append("\\");
                proof {
                    reveal_strlit("\\");
                    assert(out@ =~= out0.push('\\'));
                    assert(spec_escape_code(t@, jj) == Some(('\\', jj + 2)));
                }
            } else if e == '/' {
                out.append("/");
                proof {
                    reveal_strlit("/");
                    assert(out@ =~= out0.push('/'));
                    assert(spec_escape_code(t@, jj) == Some(('/', jj + 2)));
                }
            } else if e == 'n' {
                out.append("\n");
                proof {
                    reveal_strlit("\n");
                    assert(out@ =~= out0.push('\n'));
                    assert(spec_escape_code(t@, jj) == Some(('\n', jj + 2)));
                }
            } else if e == 't' {
                out.append("\t");
                proof {
                    reveal_strlit("\t");
                    assert(out@ =~= out0.push('\t'));
                    assert(spec_escape_code(t@, jj) == Some(('\t', jj + 2)));
                }
            } else if e == 'r' {
                out.append("\r");
                proof {
                    reveal_strlit("\r");
                    assert(out@ =~= out0.push('\r'));
                    assert(spec_escape_code(t@, jj) == Some(('\r', jj + 2)));
                }
            } else if e == 'b' {
                out.append("\u{0008}");
                proof {
                    reveal_strlit("\u{0008}");
                    assert(out@ =~= out0.push('\u{0008}'));
                    assert(spec_escape_code(t@, jj) == Some(('\u{0008}', jj + 2)));
                }
            } else if e == 'f' {
                out.append("\u{000C}");
                proof {
                    reveal_strlit("\u{000C}");
                    assert(out@ =~= out0.push('\u{000C}'));
                    assert(spec_escape_code(t@, jj) == Some(('\u{000C}', jj + 2)));
                }
            } else if e == 'u' {
                if n - j < 6 {
                    return None;
                }
                let h0 = match hex_val(t.get_char(j + 2)) {
                    Some(v) => v,
                    None => {
                        return None;
                    },
                };
                let h1 = match hex_val(t.get_char(j + 3)) {
                    Some(v) => v,
                    None => {
                        return None;
                    },
                };
                let h2 = match hex_val(t.get_char(j + 4)) {
                    Some(v) => v,
                    None => {
                        return None;
                    },
                };
                let h3 = match hex_val(t.get_char(j + 5)) {
                    Some(v) => v,
                    None => {
                        return None;
                    },
                };
                let code = h0 * 4096 + h1 * 256 + h2 * 16 + h3;
                match char::from_u32(code) {
                    Some(c) => {
                        push_char(&mut out, c);
                        proof {
                            assert(out@ =~= out0.push(c));
                            assert(spec_escape_code(t@, jj) == Some((c, jj + 6)));
                        }
                    },
                    None => {
                        // a lone surrogate cannot be a character
                        proof {
                            assert(spec_read_string_tail(t@, jj, out0) is None);
                        }
                        return None;
                    },
                }
                j = j + 6;
                continue;
            } else {
                return None;
            }
            j = j + 2;
        } else {
            let ghost out0 = out@;
            let one = t.substring_char(j, j + 1);
            out.append(one);
            proof {
                assert(out@ =~= out0.push(t@[j as int]));
            }
            j = j + 1;
        }
    }
    None
}

/// Skips one JSON value of any shape.
fn skip_value(t: &str, i: usize) -> (r: Option<usize>)
    requires
        i <= t@.len(),
    ensures
        r matches Some(j) ==> i < j <= t@.len(),
        match spec_skip_value(t@, i as int) {
            Some(jj) => r matches Some(j) && j as int == jj,
            None => r is None,
        },
    decreases t@.len() - i,
{
    let n = t.unicode_len();
    if i >= n {
        return None;
    }
    let c = t.get_char(i);
    if c == '"' {
        match read_string_esc(t, i) {
            Some((_s, j)) => Some(j),
            None => None,
        }
    } else if c == '{' || c == '[' {
        let close = if c == '{' {
            '}'
        } else {
            ']'
        };
        let mut j = skip_ws(t, i + 1);
        if j < n && t.get_char(j) == close {
            return Some(j + 1);
        }
        proof {
            assert(spec_skip_value(t@, i as int) == spec_skip_members(t@, j as int, close));
        }
        loop
            invariant
                i < j <= n,
                n == t@.len(),
                i < n,
                close == (if t@[i as int] == '{' {
                    '}'
                } else {
                    ']'
                }),
                t@[i as int] == '{' || t@[i as int] == '[',
                spec_skip_value(t@, i as int) == spec_skip_members(t@, j as int, close),
            decreases n - j,
        {
            let jv = if close == '}' {
                // a member: key, colon, value
                let (_k, jk) = match read_string_esc(t, j) {
                    Some(p) => p,
                    None => {
                        return None;
                    },
                };
                let jc = skip_ws(t, jk);
                if jc >= n || t.get_char(jc) != ':' {
                    return None;
                }
                let jv0 = skip_ws(t, jc + 1);
                match skip_value(t, jv0) {
                    Some(p) => p,
                    None => {
                        return None;
                    },
                }
            } else {
                match skip_value(t, j) {
                    Some(p) => p,
                    None => {
                        return None;
                    },
                }
            };
            let js = skip_ws(t, jv);
            if js < n && t.get_char(js) == ',' {
                let next = skip_ws(t, js + 1);
                if next <= j {
                    return None;
                }
                j = next;
            } else if js < n && t.get_char(js) == close {
                return Some(js + 1);
            } else {
                return None;
            }
        }
    } else if c == 't' {
        match match_lit(t, i, "true") {
            Some(j) => {
                proof {
                    reveal_strlit("true");
                }
                Some(j)
            },
            None => {
                proof {
                    reveal_strlit("true");
                }
                None
            },
        }
    } else if c == 'f' {
        match match_lit(t, i, "false") {
            Some(j) => {
                proof {
                    reveal_strlit("false");
                }
                Some(j)
            },
            None => {
                proof {
                    reveal_strlit("false");
                }
                None
            },
        }
    } else if c == 'n' {
        match match_lit(t, i, "null") {
            Some(j) => {
                proof {
                    reveal_strlit("null");
                }
                Some(j)
            },
            None => {
                proof {
                    reveal_strlit("null");
                }
                None
            },
        }
    } else if c == '-' || c == '+' || c == '.' || ('0' <= c && c <= '9') {
        let mut j = i + 1;
        while j < n && is_num_char(t.get_char(j))
            invariant
                i < j <= n,
                n == t@.len(),
                spec_skip_number(t@, i + 1) == spec_skip_number(t@, j as int),
            decreases n - j,
        {
            j = j + 1;
        }
        proof {
            assert(spec_skip_number(t@, j as int) == j as int);
        }
        Some(j)
    } else {
        None
    }
}

fn is_num_char(c: char) -> (r: bool)
    ensures
        r == spec_is_num_char(c),
{
    c == '-' || c == '+' || c == '.' || c == 'e' || c == 'E' || ('0' <= c && c <= '9')
}

/// Reads `null` or a string value, tolerantly.
fn parse_opt_str_tol(t: &str, i: usize) -> (r: Option<(Option<String>, usize)>)
    requires
        i <= t@.len(),
    ensures
        r matches Some(p) ==> i < p.1 <= t@.len(),
        match spec_parse_opt_str(t@, i as int) {
            Some(p) => r matches Some(q) && opt_str_matches(q.0, p.0) && q.1 as int == p.1,
            None => r is None,
        },
{
    let n = t.unicode_len();
    if i >= n {
        return None;
    }
    let c = t.get_char(i);
    if c == 'n' {
        match match_lit(t, i, "null") {
            Some(j) => {
                proof {
                    reveal_strlit("null");
                }
                Some((None, j))
            },
            None => {
                proof {
                    reveal_strlit("null");
                }
                None
            },
        }
    } else if c == '"' {
        match read_string_esc(t, i) {
            Some((s, j)) => Some((Some(s), j)),
            None => None,
        }
    } else {
        None
    }
}

/// Reads `null` or a migration object, tolerantly: members in any order,
/// unknown members skipped, `requested_at` accepted for `requestedAt`.
/// A request without both `from` and `to` is malformed.
fn parse_migration_tol(t: &str, i: usize) -> (r: Option<(Option<MigrationSettings>, usize)>)
    requires
        i <= t@.len(),
    ensures
        r matches Some(p) ==> i < p.1 <= t@.len(),
        match spec_parse_migration(t@, i as int) {
            Some(p) => r matches Some(q) && mig_matches(q.0, p.0) && q.1 as int == p.1,
            None => r is None,
        },
{
    let n = t.unicode_len();
    if i >= n {
        return None;
    }
    if t.get_char(i) == 'n' {
        return match match_lit(t, i, "null") {
            Some(j) => {
                proof {
                    reveal_strlit("null");
                }
                Some((None, j))
            },
            None => {
                proof {
                    reveal_strlit("null");
                }
                None
            },
        };
    }
    if t.get_char(i) != '{' {
        return None;
    }
    let mut from_v: Option<String> = None;
    let mut to_v: Option<String> = None;
    let mut req_v: Option<String> = None;
    let mut j = skip_ws(t, i + 1);
    if j < n && t.get_char(j) == '}' {
        return None;
    }
    loop
        invariant
            i < j <= n,
            n == t@.len(),
            spec_parse_migration(t@, i as int) == spec_mig_members(
                t@,
                j as int,
                opt_str_view(from_v),
                opt_str_view(to_v),
                opt_str_view(req_v),
            ),
        decreases n - j,
    {
        let (key, jk) = match read_string_esc(t, j) {
            Some(p) => p,
            None => {
                return None;
            },
        };
        let jc = skip_ws(t, jk);
        if jc >= n || t.get_char(jc) != ':' {
            return None;
        }
        let jv0 = skip_ws(t, jc + 1);
        let mut jv: usize = jv0;
        if str_eq(key.as_str(), "from") {
            match parse_opt_str_tol(t, jv0) {
                Some((Some(s), jj)) => {
                    from_v = Some(s);
                    jv = jj;
                },
                _ => {
                    return None;
                },
            }
        } else if str_eq(key.as_str(), "to") {
            match parse_opt_str_tol(t, jv0) {
                Some((Some(s), jj)) => {
                    to_v = Some(s);
                    jv = jj;
                },
                _ => {
                    return None;
                },
            }
        } else if str_eq(key.as_str(), "requestedAt") || str_eq(key.as_str(), "requested_at") {
            match parse_opt_str_tol(t, jv0) {
                Some((v, jj)) => {
                    req_v = v;
                    jv = jj;
                },
                None => {
                    return None;
                },
            }
        } else {
            match skip_value(t, jv0) {
                Some(jj) => {
                    jv = jj;
                },
                None => {
                    return None;
                },
            }
        }
        let js = skip_ws(t, jv);
        if js < n && t.get_char(js) == ',' {
            let next = skip_ws(t, js + 1);
            if next <= j {
                return None;
            }
            j = next;
        } else if js < n && t.get_char(js) == '}' {
            match (from_v, to_v) {
                (Some(f), Some(tt)) => {
                    return Some(
                        (Some(MigrationSettings { from: f, to: tt, requested_at: req_v }), js + 1),
                    );
                },
                _ => {
                    return None;
                },
            }
        } else {
            return None;
        }
    }
}

/// Reads `null` or a storage object, tolerantly; missing members default.
fn parse_storage_tol(t: &str, i: usize) -> (r: Option<(Option<StorageSettings>, usize)>)
    requires
        i <= t@.len(),
    ensures
        r matches Some(p) ==> i < p.1 <= t@.len(),
        match spec_parse_storage(t@, i as int) {
            Some(p) => r matches Some(q) && storage_matches(q.0, p.0) && q.1 as int == p.1,
            None => r is None,
        },
{
    let n = t.unicode_len();
    if i >= n {
        return None;
    }
    if t.get_char(i) == 'n' {
        return match match_lit(t, i, "null") {
            Some(j) => {
                proof {
                    reveal_strlit("null");
                }
                Some((None, j))
            },
            None => {
                proof {
                    reveal_strlit("null");
                }
                None
            },
        };
    }
    if t.get_char(i) != '{' {
        return None;
    }
    let mut mode_v: Option<String> = None;
    let mut cloud_v: Option<String> = None;
    let mut mig_v: Option<MigrationSettings> = None;
    let mut j = skip_ws(t, i + 1);
    if j < n && t.get_char(j) == '}' {
        return Some(
            (Some(StorageSettings { mode: None, icloud_path: None, migration: None }), j + 1),
        );
    }
    loop
        invariant
            i < j <= n,
            n == t@.len(),
            spec_parse_storage(t@, i as int) == spec_storage_members(
                t@,
                j as int,
                opt_str_view(mode_v),
                opt_str_view(cloud_v),
                mig_view(mig_v),
            ),
        decreases n - j,
    {
        let (key, jk) = match read_string_esc(t, j) {
            Some(p) => p,
            None => {
                return None;
            },
        };
        let jc = skip_ws(t, jk);
        if jc >= n || t.get_char(jc) != ':' {
            return None;
        }
        let jv0 = skip_ws(t, jc + 1);
        let mut jv: usize = jv0;
        if str_eq(key.as_str(), "mode") {
            match parse_opt_str_tol(t, jv0) {
                Some((v, jj)) => {
                    mode_v = v;
                    jv = jj;
                },
                None => {
                    return None;
                },
            }
        } else if str_eq(key.as_str(), "icloudPath") || str_eq(key.as_str(), "icloud_path") {
            match parse_opt_str_tol(t, jv0) {
                Some((v, jj)) => {
                    cloud_v = v;
                    jv = jj;
                },
                None => {
                    return None;
                },
            }
        } else if str_eq(key.as_str(), "migration") {
            match parse_migration_tol(t, jv0) {
                Some((v, jj)) => {
                    mig_v = v;
                    jv = jj;
                },
                None => {
                    return None;
                },
            }
        } else {
            match skip_value(t, jv0) {
                Some(jj) => {
                    jv = jj;
                },
                None => {
                    return None;
                },
            }
        }
        let js = skip_ws(t, jv);
        if js < n && t.get_char(js) == ',' {
            let next = skip_ws(t, js + 1);
            if next <= j {
                return None;
            }
            j = next;
        } else if js < n && t.get_char(js) == '}' {
            return Some(
                (
                    Some(
                        StorageSettings { mode: mode_v, icloud_path: cloud_v, migration: mig_v },
                    ),
                    js + 1,
                ),
            );
        } else {
            return None;
        }
    }
}

/// Reads `null` or an AI object, tolerantly; missing members default.
fn parse_ai_tol(t: &str, i: usize) -> (r: Option<(Option<AiSettings>, usize)>)
    requires
        i <= t@.len(),
    ensures
        r matches Some(p) ==> i < p.1 <= t@.len(),
        match spec_parse_ai(t@, i as int) {
            Some(p) => r matches Some(q) && ai_matches(q.0, p.0) && q.1 as int == p.1,
            None => r is None,
        },
{
    let n = t.unicode_len();
    if i >= n {
        return None;
    }
    if t.get_char(i) == 'n' {
        return match match_lit(t, i, "null") {
            Some(j) => {
                proof {
                    reveal_strlit("null");
                }
                Some((None, j))
            },
            None => {
                proof {
                    reveal_strlit("null");
                }
                None
            },
        };
    }
    if t.get_char(i) != '{' {
        return None;
    }
    let mut prov_v: Option<String> = None;
    let mut end_v: Option<String> = None;
    let mut j = skip_ws(t, i + 1);
    if j < n && t.get_char(j) == '}' {
        return Some((Some(AiSettings { provider: None, endpoint: None }), j + 1));
    }
    loop
        invariant
            i < j <= n,
            n == t@.len(),
            spec_parse_ai(t@, i as int) == spec_ai_members(
                t@,
                j as int,
                opt_str_view(prov_v),
                opt_str_view(end_v),
            ),
        decreases n - j,
    {
        let (key, jk) = match read_string_esc(t, j) {
            Some(p) => p,
            None => {
                return None;
            },
        };
        let jc = skip_ws(t, jk);
        if jc >= n || t.get_char(jc) != ':' {
            return None;
        }
        let jv0 = skip_ws(t, jc + 1);
        let mut jv: usize = jv0;
        if str_eq(key.as_str(), "provider") {
            match parse_opt_str_tol(t, jv0) {
                Some((v, jj)) => {
                    prov_v = v;
                    jv = jj;
                },
                None => {
                    return None;
                },
            }
        } else if str_eq(key.as_str(), "endpoint") {
            match parse_opt_str_tol(t, jv0) {
                Some((v, jj)) => {
                    end_v = v;
                    jv = jj;
                },
                None => {
                    return None;
                },
            }
        } else {
            match skip_value(t, jv0) {
                Some(jj) => {
                    jv = jj;
                },
                None => {
                    return None;
                },
            }
        }
        let js = skip_ws(t, jv);
        if js < n && t.get_char(js) == ',' {
            let next = skip_ws(t, js + 1);
            if next <= j {
                return None;
            }
            j = next;
        } else if js < n && t.get_char(js) == '}' {
            return Some((Some(AiSettings { provider: prov_v, endpoint: end_v }), js + 1));
        } else {
            return None;
        }
    }
}

/// The tolerant reading of a whole file: any member order, any whitespace,
/// unknown members skipped; anything malformed yields the default record.
fn parse_settings_tolerant(t: &str) -> (r: AppSettings)
    ensures
        match spec_parse_doc(t@) {
            Some(v) => settings_matches(r, v),
            None => r.storage is None && r.ai is None,
        },
{
    let n = t.unicode_len();
    let empty = AppSettings { storage: None, ai: None };
    let i0 = skip_ws(t, 0);
    if i0 >= n || t.get_char(i0) != '{' {
        return empty;
    }
    let mut storage_v: Option<StorageSettings> = None;
    let mut ai_v: Option<AiSettings> = None;
    let mut j = skip_ws(t, i0 + 1);
    let mut done: Option<usize> = None;
    if j < n && t.get_char(j) == '}' {
        done = Some(j + 1);
    }
    while done.is_none()
        invariant
            i0 < j <= n,
            n == t@.len(),
            empty.storage is None && empty.ai is None,
            match done {
                None => spec_parse_doc(t@) == spec_doc_members(
                    t@,
                    j as int,
                    storage_view(storage_v),
                    ai_view(ai_v),
                ),
                Some(e) => j < e <= n && spec_parse_doc(t@) == (if spec_skip_ws(t@, e as int)
                    == t@.len() {
                    Some(
                        SettingsV { storage: storage_view(storage_v), ai: ai_view(ai_v) },
                    )
                } else {
                    None
                }),
            },
        decreases (if done is None {
            n - j + 1
        } else {
            0int
        }),
    {
        let (key, jk) = match read_string_esc(t, j) {
            Some(p) => p,
            None => {
                return empty;
            },
        };
        let jc = skip_ws(t, jk);
        if jc >= n || t.get_char(jc) != ':' {
            return empty;
        }
        let jv0 = skip_ws(t, jc + 1);
        let mut jv: usize = jv0;
        if str_eq(key.as_str(), "storage") {
            match parse_storage_tol(t, jv0) {
                Some((v, jj)) => {
                    proof {
                        match spec_parse_storage(t@, jv0 as int) {
                            Some(p) => {
                                assert(storage_view(v) == p.0);
                            },
                            None => {},
                        }
                    }
                    storage_v = v;
                    jv = jj;
                },
                None => {
                    return empty;
                },
            }
        } else if str_eq(key.as_str(), "ai") {
            match parse_ai_tol(t, jv0) {
                Some((v, jj)) => {
                    proof {
                        match spec_parse_ai(t@, jv0 as int) {
                            Some(p) => {
                                assert(ai_view(v) == p.0);
                            },
                            None => {},
                        }
                    }
                    ai_v = v;
                    jv = jj;
                },
                None => {
                    return empty;
                },
            }
        } else {
            match skip_value(t, jv0) {
                Some(jj) => {
                    jv = jj;
                },
                None => {
                    return empty;
                },
            }
        }
        let js = skip_ws(t, jv);
        if js < n && t.get_char(js) == ',' {
            let next = skip_ws(t, js + 1);
            if next <= j {
                return empty;
            }
            j = next;
        } else if js < n && t.get_char(js) == '}' {
            done = Some(js + 1);
        } else {
            return empty;
        }
    }
    let e = match done {
        Some(e) => e,
        None => {
            return empty;
        },
    };
    if skip_ws(t, e) != n {
        return empty;
    }
    proof {
        assert(settings_matches(
            AppSettings { storage: storage_v, ai: ai_v },
            SettingsV { storage: storage_view(storage_v), ai: ai_view(ai_v) },
        ));
    }
    AppSettings { storage: storage_v, ai: ai_v }
}

/// Parses the contents of the settings file.
///
/// What `render_settings` wrote is read back exactly: for every record `s`
/// whose strings are `json_safe`, parsing the canonical rendering of `s`
/// yields a record structurally equal to `s` — loading after saving loses
/// nothing.  Every other text is read against `spec_parse_doc`, the
/// specification of the tolerant grammar: recognized members present in
/// the text appear in the result, and text the grammar rejects yields the
/// default record rather than an error.
pub fn parse_settings(t: &str) -> (r: AppSettings)
    ensures
        forall|s: AppSettings|
            #![trigger spec_render_settings(s)]
            wf_settings(s) && t@ == spec_render_settings(s) ==> crate::settings::same_settings(
                r,
                s,
            ),
        !spec_doc_shape(t@) ==> r.storage is None && r.ai is None,
        spec_empty_object(t@) ==> r.storage is None && r.ai is None,
        (forall|s: AppSettings|
            wf_settings(s) ==> t@ != #[trigger] spec_render_settings(s)) ==> match spec_parse_doc(
            t@,
        ) {
            Some(v) => settings_matches(r, v),
            None => r.storage is None && r.ai is None,
        },
{
    let r = match parse_canonical(t) {
        Some(s) => {
            proof {
                // a canonical text opens its object with a member key, so
                // its object is never empty
                if spec_empty_object(t@) {
                    assert(spec_skip_ws(t@, 0) == 0);
                    assert(spec_skip_ws(t@, 4) == 4);
                    assert(spec_skip_ws(t@, 3) == 4);
                    assert(spec_skip_ws(t@, 2) == 4);
                    assert(spec_skip_ws(t@, 1) == 4);
                }
            }
            s
        },
        None => parse_settings_tolerant(t),
    };
    r
}


/// The character with the given scalar value.
pub open spec fn char_of_code(code: u32) -> char {
    choose|c: char| (#[trigger] (c as u32)) == code
}

/// The numeric value of one hexadecimal digit character, if it is one.
pub open spec fn spec_hex_val(c: char) -> Option<u32> {
    let code = c as u32;
    if 48 <= code && code <= 57 {
        Some((code - 48) as u32)
    } else if 97 <= code && code <= 102 {
        Some((code - 87) as u32)
    } else if 65 <= code && code <= 70 {
        Some((code - 55) as u32)
    } else {
        None
    }
}

/// One escape sequence starting at the backslash `t[j]`: the character it
/// stands for and the position after it.
pub open spec fn spec_escape_code(t: Seq<char>, j: int) -> Option<(char, int)> {
    if j + 1 >= t.len() {
        None
    } else {
        let e = t[j + 1];
        if e == '"' {
            Some(('"', j + 2))
        } else if e == '\\' {
            Some(('\\', j + 2))
        } else if e == '/' {
            Some(('/', j + 2))
        } else if e == 'n' {
            Some(('\n', j + 2))
        } else if e == 't' {
            Some(('\t', j + 2))
        } else if e == 'r' {
            Some(('\r', j + 2))
        } else if e == 'b' {
            Some(('\u{0008}', j + 2))
        } else if e == 'f' {
            Some(('\u{000C}', j + 2))
        } else if e == 'u' {
            if t.len() - j < 6 {
                None
            } else {
                match (spec_hex_val(t[j + 2]), spec_hex_val(t[j + 3]), spec_hex_val(t[j + 4]),
                spec_hex_val(t[j + 5])) {
                    (Some(h0), Some(h1), Some(h2), Some(h3)) => {
                        let code = h0 * 4096 + h1 * 256 + h2 * 16 + h3;
                        if code < 0xD800 || (0xE000 <= code && code <= 0x10FFFF) {
                            Some((char_of_code(code as u32), j + 6))
                        } else {
                            None
                        }
                    },
                    _ => None,
                }
            }
        } else {
            None
        }
    }
}

/// The contents and end position of a string literal body read from `j`
/// (just past the opening quote), with `acc` already decoded.
pub open spec fn spec_read_string_tail(t: Seq<char>, j: int, acc: Seq<char>) -> Option<
    (Seq<char>, int),
>
    decreases t.len() - j,
{
    if j < 0 || j >= t.len() {
        None
    } else if t[j] == '"' {
        Some((acc, j + 1))
    } else if t[j] == '\\' {
        match spec_escape_code(t, j) {
            Some((c, j2)) => if j < j2 <= t.len() {
                spec_read_string_tail(t, j2, acc.push(c))
            } else {
                None
            },
            None => None,
        }
    } else {
        spec_read_string_tail(t, j + 1, acc.push(t[j]))
    }
}

/// A whole string literal at position `i`: its decoded contents and the
/// position after the closing quote.
pub open spec fn spec_read_string(t: Seq<char>, i: int) -> Option<(Seq<char>, int)> {
    if 0 <= i < t.len() && t[i] == '"' {
        spec_read_string_tail(t, i + 1, Seq::empty())
    } else {
        None
    }
}


/// A character that can continue a JSON number.
pub open spec fn spec_is_num_char(c: char) -> bool {
    c == '-' || c == '+' || c == '.' || c == 'e' || c == 'E' || ('0' <= c && c <= '9')
}

/// The end of a run of number characters starting at `j`.
pub open spec fn spec_skip_number(t: Seq<char>, j: int) -> int
    decreases t.len() - j,
{
    if j < 0 || j >= t.len() {
        j
    } else if spec_is_num_char(t[j]) {
        spec_skip_number(t, j + 1)
    } else {
        j
    }
}

/// The position after one JSON value of any shape at `i`, when there is
/// one the reader accepts.
pub open spec fn spec_skip_value(t: Seq<char>, i: int) -> Option<int>
    decreases t.len() - i, 0int,
{
    if i < 0 || i >= t.len() {
        None
    } else {
        let c = t[i];
        if c == '"' {
            match spec_read_string(t, i) {
                Some((_w, j)) => Some(j),
                None => None,
            }
        } else if c == '{' || c == '[' {
            let close = if c == '{' {
                '}'
            } else {
                ']'
            };
            let j = spec_skip_ws(t, i + 1);
            if !(i < j && j <= t.len()) {
                None
            } else if j < t.len() && t[j] == close {
                Some(j + 1)
            } else {
                spec_skip_members(t, j, close)
            }
        } else if c == 't' {
            if i + 4 <= t.len() && t.subrange(i, i + 4) == "true"@ {
                Some(i + 4)
            } else {
                None
            }
        } else if c == 'f' {
            if i + 5 <= t.len() && t.subrange(i, i + 5) == "false"@ {
                Some(i + 5)
            } else {
                None
            }
        } else if c == 'n' {
            if i + 4 <= t.len() && t.subrange(i, i + 4) == "null"@ {
                Some(i + 4)
            } else {
                None
            }
        } else if c == '-' || c == '+' || c == '.' || ('0' <= c && c <= '9') {
            Some(spec_skip_number(t, i + 1))
        } else {
            None
        }
    }
}

/// The position after the remaining members (or elements) of an object or
/// array whose first member starts at `j`.
pub open spec fn spec_skip_members(t: Seq<char>, j: int, close: char) -> Option<int>
    decreases t.len() - j, 1int,
{
    if j < 0 || j >= t.len() {
        None
    } else {
        let jv_opt = if close == '}' {
            match spec_read_string(t, j) {
                Some((_k, jk)) => {
                    let jc = spec_skip_ws(t, jk);
                    if jc < t.len() && t[jc] == ':' {
                        let jv0 = spec_skip_ws(t, jc + 1);
                        if j < jv0 && jv0 <= t.len() {
                            spec_skip_value(t, jv0)
                        } else {
                            None
                        }
                    } else {
                        None
                    }
                },
                None => None,
            }
        } else {
            spec_skip_value(t, j)
        };
        match jv_opt {
            None => None,
            Some(jv) => {
                let js = spec_skip_ws(t, jv);
                if js < t.len() && t[js] == ',' {
                    let next = spec_skip_ws(t, js + 1);
                    if j < next && next <= t.len() {
                        spec_skip_members(t, next, close)
                    } else {
                        None
                    }
                } else if js < t.len() && t[js] == close {
                    Some(js + 1)
                } else {
                    None
                }
            },
        }
    }
}


/// View-level images of the record types, for speaking about parsed
/// values in contracts.
pub struct MigV {
    pub from: Seq<char>,
    pub to: Seq<char>,
    pub requested_at: Option<Seq<char>>,
}

pub struct StorageV {
    pub mode: Option<Seq<char>>,
    pub icloud_path: Option<Seq<char>>,
    pub migration: Option<MigV>,
}

pub struct AiV {
    pub provider: Option<Seq<char>>,
    pub endpoint: Option<Seq<char>>,
}

pub struct SettingsV {
    pub storage: Option<StorageV>,
    pub ai: Option<AiV>,
}

/// The view of an optional string.
pub open spec fn opt_str_view(o: Option<String>) -> Option<Seq<char>> {
    match o {
        Some(s) => Some(s@),
        None => None,
    }
}

/// Whether an optional string carries exactly the given view.
pub open spec fn opt_str_matches(a: Option<String>, v: Option<Seq<char>>) -> bool {
    opt_str_view(a) == v
}


/// The view of an optional migration request.
pub open spec fn mig_view(o: Option<MigrationSettings>) -> Option<MigV> {
    match o {
        Some(m) => Some(
            MigV { from: m.from@, to: m.to@, requested_at: opt_str_view(m.requested_at) },
        ),
        None => None,
    }
}

/// Whether a migration request carries exactly the given view.
pub open spec fn mig_matches(a: Option<MigrationSettings>, v: Option<MigV>) -> bool {
    match (a, v) {
        (Some(m), Some(w)) => m.from@ == w.from && m.to@ == w.to && opt_str_matches(
            m.requested_at,
            w.requested_at,
        ),
        (None, None) => true,
        _ => false,
    }
}


/// The view of an optional storage section.
pub open spec fn storage_view(o: Option<StorageSettings>) -> Option<StorageV> {
    match o {
        Some(st) => Some(
            StorageV {
                mode: opt_str_view(st.mode),
                icloud_path: opt_str_view(st.icloud_path),
                migration: mig_view(st.migration),
            },
        ),
        None => None,
    }
}

/// The view of an optional AI section.
pub open spec fn ai_view(o: Option<AiSettings>) -> Option<AiV> {
    match o {
        Some(ai) => Some(
            AiV { provider: opt_str_view(ai.provider), endpoint: opt_str_view(ai.endpoint) },
        ),
        None => None,
    }
}

/// Whether a storage section carries exactly the given view.
pub open spec fn storage_matches(a: Option<StorageSettings>, v: Option<StorageV>) -> bool {
    match (a, v) {
        (Some(st), Some(w)) => opt_str_matches(st.mode, w.mode) && opt_str_matches(
            st.icloud_path,
            w.icloud_path,
        ) && mig_matches(st.migration, w.migration),
        (None, None) => true,
        _ => false,
    }
}

/// Whether an AI section carries exactly the given view.
pub open spec fn ai_matches(a: Option<AiSettings>, v: Option<AiV>) -> bool {
    match (a, v) {
        (Some(ai), Some(w)) => opt_str_matches(ai.provider, w.provider) && opt_str_matches(
            ai.endpoint,
            w.endpoint,
        ),
        (None, None) => true,
        _ => false,
    }
}

/// Whether a whole record carries exactly the given view.
pub open spec fn settings_matches(a: AppSettings, v: SettingsV) -> bool {
    storage_matches(a.storage, v.storage) && ai_matches(a.ai, v.ai)
}

/// `null` or a string literal at `i`, as the tolerant reader takes it.
pub open spec fn spec_parse_opt_str(t: Seq<char>, i: int) -> Option<(Option<Seq<char>>, int)> {
    if i < 0 || i >= t.len() {
        None
    } else if t[i] == 'n' {
        if i + 4 <= t.len() && t.subrange(i, i + 4) == "null"@ {
            Some((None, i + 4))
        } else {
            None
        }
    } else if t[i] == '"' {
        match spec_read_string(t, i) {
            Some((w, j)) => Some((Some(w), j)),
            None => None,
        }
    } else {
        None
    }
}

/// `null` or a migration object at `i`, as the tolerant reader takes it: a
/// request needs both `from` and `to`, members come in any order, unknown
/// members are skipped, and `requested_at` is accepted for `requestedAt`.
pub open spec fn spec_parse_migration(t: Seq<char>, i: int) -> Option<(Option<MigV>, int)> {
    if i < 0 || i >= t.len() {
        None
    } else if t[i] == 'n' {
        if i + 4 <= t.len() && t.subrange(i, i + 4) == "null"@ {
            Some((None, i + 4))
        } else {
            None
        }
    } else if t[i] != '{' {
        None
    } else {
        let j = spec_skip_ws(t, i + 1);
        if !(i < j && j <= t.len()) {
            None
        } else if j < t.len() && t[j] == '}' {
            None
        } else {
            spec_mig_members(t, j, None, None, None)
        }
    }
}

pub open spec fn spec_mig_members(
    t: Seq<char>,
    j: int,
    from_v: Option<Seq<char>>,
    to_v: Option<Seq<char>>,
    req_v: Option<Seq<char>>,
) -> Option<(Option<MigV>, int)>
    decreases t.len() - j,
{
    if j < 0 || j >= t.len() {
        None
    } else {
        match spec_read_string(t, j) {
            None => None,
            Some((key, jk)) => {
                let jc = spec_skip_ws(t, jk);
                if !(jc < t.len() && t[jc] == ':') {
                    None
                } else {
                    let jv0 = spec_skip_ws(t, jc + 1);
                    if !(j < jv0 && jv0 <= t.len()) {
                        None
                    } else {
                        let step: Option<(Option<Seq<char>>, Option<Seq<char>>, Option<Seq<char>>, int)> =
                        if key == "from"@ {
                            match spec_parse_opt_str(t, jv0) {
                                Some((Some(w), jj)) => Some((Some(w), to_v, req_v, jj)),
                                _ => None,
                            }
                        } else if key == "to"@ {
                            match spec_parse_opt_str(t, jv0) {
                                Some((Some(w), jj)) => Some((from_v, Some(w), req_v, jj)),
                                _ => None,
                            }
                        } else if key == "requestedAt"@ || key == "requested_at"@ {
                            match spec_parse_opt_str(t, jv0) {
                                Some((w, jj)) => Some((from_v, to_v, w, jj)),
                                None => None,
                            }
                        } else {
                            match spec_skip_value(t, jv0) {
                                Some(jj) => Some((from_v, to_v, req_v, jj)),
                                None => None,
                            }
                        };
                        match step {
                            None => None,
                            Some((f2, t2, r2, jv)) => {
                                let js = spec_skip_ws(t, jv);
                                if js < t.len() && t[js] == ',' {
                                    let next = spec_skip_ws(t, js + 1);
                                    if j < next && next <= t.len() {
                                        spec_mig_members(t, next, f2, t2, r2)
                                    } else {
                                        None
                                    }
                                } else if js < t.len() && t[js] == '}' {
                                    match (f2, t2) {
                                        (Some(f), Some(tt)) => Some(
                                            (
                                                Some(
                                                    MigV { from: f, to: tt, requested_at: r2 },
                                                ),
                                                js + 1,
                                            ),
                                        ),
                                        _ => None,
                                    }
                                } else {
                                    None
                                }
                            },
                        }
                    }
                }
            },
        }
    }
}


/// `null` or a storage object at `i`, as the tolerant reader takes it;
/// missing members default, `icloud_path` is accepted for `icloudPath`.
pub open spec fn spec_parse_storage(t: Seq<char>, i: int) -> Option<(Option<StorageV>, int)> {
    if i < 0 || i >= t.len() {
        None
    } else if t[i] == 'n' {
        if i + 4 <= t.len() && t.subrange(i, i + 4) == "null"@ {
            Some((None, i + 4))
        } else {
            None
        }
    } else if t[i] != '{' {
        None
    } else {
        let j = spec_skip_ws(t, i + 1);
        if !(i < j && j <= t.len()) {
            None
        } else if j < t.len() && t[j] == '}' {
            Some((Some(StorageV { mode: None, icloud_path: None, migration: None }), j + 1))
        } else {
            spec_storage_members(t, j, None, None, None)
        }
    }
}

pub open spec fn spec_storage_members(
    t: Seq<char>,
    j: int,
    mode_v: Option<Seq<char>>,
    cloud_v: Option<Seq<char>>,
    mig_v: Option<MigV>,
) -> Option<(Option<StorageV>, int)>
    decreases t.len() - j,
{
    if j < 0 || j >= t.len() {
        None
    } else {
        match spec_read_string(t, j) {
            None => None,
            Some((key, jk)) => {
                let jc = spec_skip_ws(t, jk);
                if !(jc < t.len() && t[jc] == ':') {
                    None
                } else {
                    let jv0 = spec_skip_ws(t, jc + 1);
                    if !(j < jv0 && jv0 <= t.len()) {
                        None
                    } else {
                        let step: Option<(Option<Seq<char>>, Option<Seq<char>>, Option<MigV>, int)> =
                        if key == "mode"@ {
                            match spec_parse_opt_str(t, jv0) {
                                Some((w, jj)) => Some((w, cloud_v, mig_v, jj)),
                                None => None,
                            }
                        } else if key == "icloudPath"@ || key == "icloud_path"@ {
                            match spec_parse_opt_str(t, jv0) {
                                Some((w, jj)) => Some((mode_v, w, mig_v, jj)),
                                None => None,
                            }
                        } else if key == "migration"@ {
                            match spec_parse_migration(t, jv0) {
                                Some((w, jj)) => Some((mode_v, cloud_v, w, jj)),
                                None => None,
                            }
                        } else {
                            match spec_skip_value(t, jv0) {
                                Some(jj) => Some((mode_v, cloud_v, mig_v, jj)),
                                None => None,
                            }
                        };
                        match step {
                            None => None,
                            Some((m2, c2, g2, jv)) => {
                                let js = spec_skip_ws(t, jv);
                                if js < t.len() && t[js] == ',' {
                                    let next = spec_skip_ws(t, js + 1);
                                    if j < next && next <= t.len() {
                                        spec_storage_members(t, next, m2, c2, g2)
                                    } else {
                                        None
                                    }
                                } else if js < t.len() && t[js] == '}' {
                                    Some(
                                        (
                                            Some(
                                                StorageV {
                                                    mode: m2,
                                                    icloud_path: c2,
                                                    migration: g2,
                                                },
                                            ),
                                            js + 1,
                                        ),
                                    )
                                } else {
                                    None
                                }
                            },
                        }
                    }
                }
            },
        }
    }
}

/// `null` or an AI object at `i`, as the tolerant reader takes it.
pub open spec fn spec_parse_ai(t: Seq<char>, i: int) -> Option<(Option<AiV>, int)> {
    if i < 0 || i >= t.len() {
        None
    } else if t[i] == 'n' {
        if i + 4 <= t.len() && t.subrange(i, i + 4) == "null"@ {
            Some((None, i + 4))
        } else {
            None
        }
    } else if t[i] != '{' {
        None
    } else {
        let j = spec_skip_ws(t, i + 1);
        if !(i < j && j <= t.len()) {
            None
        } else if j < t.len() && t[j] == '}' {
            Some((Some(AiV { provider: None, endpoint: None }), j + 1))
        } else {
            spec_ai_members(t, j, None, None)
        }
    }
}

pub open spec fn spec_ai_members(
    t: Seq<char>,
    j: int,
    prov_v: Option<Seq<char>>,
    end_v: Option<Seq<char>>,
) -> Option<(Option<AiV>, int)>
    decreases t.len() - j,
{
    if j < 0 || j >= t.len() {
        None
    } else {
        match spec_read_string(t, j) {
            None => None,
            Some((key, jk)) => {
                let jc = spec_skip_ws(t, jk);
                if !(jc < t.len() && t[jc] == ':') {
                    None
                } else {
                    let jv0 = spec_skip_ws(t, jc + 1);
                    if !(j < jv0 && jv0 <= t.len()) {
                        None
                    } else {
                        let step: Option<(Option<Seq<char>>, Option<Seq<char>>, int)> = if key
                            == "provider"@ {
                            match spec_parse_opt_str(t, jv0) {
                                Some((w, jj)) => Some((w, end_v, jj)),
                                None => None,
                            }
                        } else if key == "endpoint"@ {
                            match spec_parse_opt_str(t, jv0) {
                                Some((w, jj)) => Some((prov_v, w, jj)),
                                None => None,
                            }
                        } else {
                            match spec_skip_value(t, jv0) {
                                Some(jj) => Some((prov_v, end_v, jj)),
                                None => None,
                            }
                        };
                        match step {
                            None => None,
                            Some((p2, e2, jv)) => {
                                let js = spec_skip_ws(t, jv);
                                if js < t.len() && t[js] == ',' {
                                    let next = spec_skip_ws(t, js + 1);
                                    if j < next && next <= t.len() {
                                        spec_ai_members(t, next, p2, e2)
                                    } else {
                                        None
                                    }
                                } else if js < t.len() && t[js] == '}' {
                                    Some((Some(AiV { provider: p2, endpoint: e2 }), js + 1))
                                } else {
                                    None
                                }
                            },
                        }
                    }
                }
            },
        }
    }
}

/// A whole settings document, as the tolerant reader takes it: an object
/// with `storage` and `ai` members in any order, unknown members skipped,
/// free whitespace, nothing after the closing brace.
pub open spec fn spec_parse_doc(t: Seq<char>) -> Option<SettingsV> {
    let i0 = spec_skip_ws(t, 0);
    if !(0 <= i0 && i0 <= t.len()) {
        None
    } else if !(i0 < t.len() && t[i0] == '{') {
        None
    } else {
        let j = spec_skip_ws(t, i0 + 1);
        if !(i0 < j && j <= t.len()) {
            None
        } else if j < t.len() && t[j] == '}' {
            if spec_skip_ws(t, j + 1) == t.len() {
                Some(SettingsV { storage: None, ai: None })
            } else {
                None
            }
        } else {
            spec_doc_members(t, j, None, None)
        }
    }
}

pub open spec fn spec_doc_members(
    t: Seq<char>,
    j: int,
    st_v: Option<StorageV>,
    ai_v: Option<AiV>,
) -> Option<SettingsV>
    decreases t.len() - j,
{
    if j < 0 || j >= t.len() {
        None
    } else {
        match spec_read_string(t, j) {
            None => None,
            Some((key, jk)) => {
                let jc = spec_skip_ws(t, jk);
                if !(jc < t.len() && t[jc] == ':') {
                    None
                } else {
                    let jv0 = spec_skip_ws(t, jc + 1);
                    if !(j < jv0 && jv0 <= t.len()) {
                        None
                    } else {
                        let step: Option<(Option<StorageV>, Option<AiV>, int)> = if key
                            == "storage"@ {
                            match spec_parse_storage(t, jv0) {
                                Some((w, jj)) => Some((w, ai_v, jj)),
                                None => None,
                            }
                        } else if key == "ai"@ {
                            match spec_parse_ai(t, jv0) {
                                Some((w, jj)) => Some((st_v, w, jj)),
                                None => None,
                            }
                        } else {
                            match spec_skip_value(t, jv0) {
                                Some(jj) => Some((st_v, ai_v, jj)),
                                None => None,
                            }
                        };
                        match step {
                            None => None,
                            Some((s2, a2, jv)) => {
                                let js = spec_skip_ws(t, jv);
                                if js < t.len() && t[js] == ',' {
                                    let next = spec_skip_ws(t, js + 1);
                                    if j < next && next <= t.len() {
                                        spec_doc_members(t, next, s2, a2)
                                    } else {
                                        None
                                    }
                                } else if js < t.len() && t[js] == '}' {
                                    if spec_skip_ws(t, js + 1) == t.len() {
                                        Some(SettingsV { storage: s2, ai: a2 })
                                    } else {
                                        None
                                    }
                                } else {
                                    None
                                }
                            },
                        }
                    }
                }
            },
        }
    }
}

} // verus!
