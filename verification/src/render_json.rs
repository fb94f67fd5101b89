//! The JSON renderer: a verified compact encoder for the results — fixed
//! keys, `null` for absent fields, tags folded into a key-to-value mapping
//! where a later duplicate key replaces an earlier one and keys are kept in
//! sorted order — re-encoded in pretty-printed form by the JSON library.

use vstd::prelude::*;
use crate::info::AudioInfo;
use crate::strutil::{dec_str, lex_lt, push_char, str_lt, u64_to_string};

verus! {

/// A lower-case hexadecimal digit.
pub open spec fn hex_digit(d: nat) -> char {
    if d < 10 {
        ((48 + d) as u8) as char
    } else {
        ((87 + d) as u8) as char
    }
}

/// The JSON escape of one character: quote and backslash are escaped, the
/// named control characters use their short forms, other control characters
/// a four-digit escape, and everything else stands for itself.
pub open spec fn esc_char(c: char) -> Seq<char> {
    if c == '"' {
        "\\\""@
    } else if c == '\\' {
        "\\\\"@
    } else if c as u32 == 8 {
        "\\b"@
    } else if c as u32 == 9 {
        "\\t"@
    } else if c as u32 == 10 {
        "\\n"@
    } else if c as u32 == 12 {
        "\\f"@
    } else if c as u32 == 13 {
        "\\r"@
    } else if (c as u32) < 32 {
        "\\u00"@ + (seq![hex_digit((c as u32 / 16) as nat), hex_digit((c as u32 % 16) as nat)])
    } else {
        seq![c]
    }
}

/// The JSON escape of a character sequence.
pub open spec fn json_escape(s: Seq<char>) -> Seq<char>
    decreases s.len(),
{
    if s.len() == 0 {
        Seq::empty()
    } else {
        json_escape(s.drop_last()) + esc_char(s.last())
    }
}

/// A JSON string literal: the escaped characters between double quotes.
pub open spec fn json_string(s: Seq<char>) -> Seq<char> {
    "\""@ + json_escape(s) + "\""@
}

/// An optional string as JSON: a string literal, or `null`.
pub open spec fn json_opt_string(o: Option<String>) -> Seq<char> {
    match o {
        Some(s) => json_string(s@),
        None => "null"@,
    }
}

/// Inserts one key/value pair into an entry list sorted by key: before the
/// first larger key, replacing an equal key's value in place.
pub open spec fn insert_tag(
    m: Seq<(Seq<char>, Seq<char>)>,
    k: Seq<char>,
    v: Seq<char>,
) -> Seq<(Seq<char>, Seq<char>)>
    decreases m.len(),
{
    if m.len() == 0 {
        seq![(k, v)]
    } else if lex_lt(k, m[0].0) {
        seq![(k, v)] + m
    } else if k == m[0].0 {
        seq![(k, v)] + m.drop_first()
    } else {
        seq![m[0]] + insert_tag(m.drop_first(), k, v)
    }
}

/// The tags folded into a key-to-value mapping, in tag order: a later
/// duplicate key replaces the earlier entry's value, and the entries come
/// out sorted by key.
pub open spec fn tag_map(tags: Seq<(String, String)>) -> Seq<(Seq<char>, Seq<char>)>
    decreases tags.len(),
{
    if tags.len() == 0 {
        Seq::empty()
    } else {
        insert_tag(tag_map(tags.drop_last()), tags.last().0@, tags.last().1@)
    }
}

/// One entry of the tag object.
pub open spec fn tag_entry(e: (Seq<char>, Seq<char>)) -> Seq<char> {
    json_string(e.0) + ":"@ + json_string(e.1)
}

/// The comma-joined entries of the tag object.
pub open spec fn tag_entries(m: Seq<(Seq<char>, Seq<char>)>) -> Seq<char>
    decreases m.len(),
{
    if m.len() == 0 {
        Seq::empty()
    } else if m.len() == 1 {
        tag_entry(m[0])
    } else {
        tag_entries(m.drop_last()) + ","@ + tag_entry(m.last())
    }
}

/// The tag object.
pub open spec fn tags_obj(m: Seq<(Seq<char>, Seq<char>)>) -> Seq<char> {
    "{"@ + tag_entries(m) + "}"@
}

/// One file's object: the eight fixed keys, `null` standing for an absent
/// optional field.
pub open spec fn json_obj(info: AudioInfo) -> Seq<char> {
    "{\"file_path\":"@ + json_string(info.file_path@) + ",\"codec\":"@ + json_opt_string(
        info.codec,
    ) + ",\"sample_rate\":"@ + (match info.sample_rate {
        Some(v) => dec_str(v as nat),
        None => "null"@,
    }) + ",\"channels\":"@ + (match info.channels {
        Some(v) => dec_str(v as nat),
        None => "null"@,
    }) + ",\"duration_seconds\":"@ + (match info.duration_seconds {
        Some(v) => dec_str(v as nat),
        None => "null"@,
    }) + ",\"avg_bitrate_kbps\":"@ + (match info.avg_bitrate_kbps {
        Some(v) => dec_str(v as nat),
        None => "null"@,
    }) + ",\"file_size_bytes\":"@ + dec_str(info.file_size_bytes as nat) + ",\"tags\":"@
        + tags_obj(tag_map(info.tags@)) + "}"@
}

/// The comma-joined objects of the output array.
pub open spec fn json_array_body(infos: Seq<AudioInfo>) -> Seq<char>
    decreases infos.len(),
{
    if infos.len() == 0 {
        Seq::empty()
    } else if infos.len() == 1 {
        json_obj(infos[0])
    } else {
        json_array_body(infos.drop_last()) + ","@ + json_obj(infos.last())
    }
}

/// The whole output in compact form: an array of one object per file.
pub open spec fn compact_json(infos: Seq<AudioInfo>) -> Seq<char> {
    "["@ + json_array_body(infos) + "]"@
}

/// What the JSON library returns when it re-encodes a document in pretty
/// form; the result depends on the document text alone.
pub uninterp spec fn pretty_of(s: Seq<char>) -> Seq<char>;

/// Relies on serde_json's `from_str` and `to_string_pretty`: parses a JSON
/// text and re-encodes it pretty-printed. Both are deterministic functions
/// of the text; a text that does not parse is returned unchanged.
#[verifier::external_body]
fn prettify_json(s: &str) -> (r: String)
    ensures
        r@ == pretty_of(s@),
{
    match serde_json::from_str::<serde_json::Value>(s) {
        Ok(v) => match serde_json::to_string_pretty(&v) {
            Ok(t) => t,
            Err(_) => s.to_owned(),
        },
        Err(_) => s.to_owned(),
    }
}

fn hex_digit_exec(d: u32) -> (r: char)
    requires
        d < 16,
    ensures
        r == hex_digit(d as nat),
{
    if d < 10 {
        ((48 + d) as u8) as char
    } else {
        ((87 + d) as u8) as char
    }
}

fn append_escaped_char(out: &mut String, c: char)
    ensures
        final(out)@ == old(out)@ + esc_char(c),
{
    if c == '"' {
        out.append("\\\"");
    } else if c == '\\' {
        out.append("\\\\");
    } else if c as u32 == 8 {
        out.append("\\b");
    } else if c as u32 == 9 {
        out.append("\\t");
    } else if c as u32 == 10 {
        out.append("\\n");
    } else if c as u32 == 12 {
        out.append("\\f");
    } else if c as u32 == 13 {
        out.append("\\r");
    } else if (c as u32) < 32 {
        out.append("\\u00");
        push_char(out, hex_digit_exec(c as u32 / 16));
        push_char(out, hex_digit_exec(c as u32 % 16));
        proof {
            assert(out@ =~= old(out)@ + esc_char(c));
        }
    } else {
        push_char(out, c);
        proof {
            assert(out@ =~= old(out)@ + esc_char(c));
        }
    }
}

fn append_json_string(out: &mut String, s: &str)
    ensures
        final(out)@ == old(out)@ + json_string(s@),
{
    out.append("\"");
    let n = s.unicode_len();
    let mut i: usize = 0;
    proof {
        assert(json_escape(s@.take(0)) =~= Seq::<char>::empty());
        assert(out@ =~= old(out)@ + "\""@ + json_escape(s@.take(0)));
    }
    while i < n
        invariant
            0 <= i <= n,
            n == s@.len(),
            out@ == old(out)@ + "\""@ + json_escape(s@.take(i as int)),
        decreases n - i,
    {
        proof {
            assert(s@.take(i as int + 1).drop_last() =~= s@.take(i as int));
            assert(s@.take(i as int + 1).last() == s@[i as int]);
        }
        let c = s.get_char(i);
        append_escaped_char(out, c);
        proof {
            assert(out@ =~= old(out)@ + "\""@ + json_escape(s@.take(i as int + 1)));
        }
        i = i + 1;
    }
    out.append("\"");
    proof {
        assert(s@.take(n as int) =~= s@);
        assert(out@ =~= old(out)@ + json_string(s@));
    }
}

fn push_tail(dst: &mut Vec<(String, String)>, src: &Vec<(String, String)>, from: usize)
    requires
        from <= src@.len(),
    ensures
        final(dst).deep_view() == old(dst).deep_view() + src.deep_view().skip(from as int),
{
    let mut i: usize = from;
    proof {
        assert(dst.deep_view() =~~= dst.deep_view() + src.deep_view().subrange(
            from as int,
            from as int,
        ));
    }
    while i < src.len()
        invariant
            from <= i <= src@.len(),
            dst.deep_view() == old(dst).deep_view() + src.deep_view().subrange(
                from as int,
                i as int,
            ),
        decreases src@.len() - i,
    {
        let ghost before = dst.deep_view();
        let pair = (src[i].0.clone(), src[i].1.clone());
        dst.push(pair);
        proof {
            assert(dst.deep_view() =~~= before.push(src.deep_view()[i as int]));
            assert(src.deep_view().subrange(from as int, i as int + 1) =~~= src.deep_view()
                .subrange(from as int, i as int).push(src.deep_view()[i as int]));
            assert(dst.deep_view() =~~= old(dst).deep_view() + src.deep_view().subrange(
                from as int,
                i as int + 1,
            ));
        }
        i = i + 1;
    }
    proof {
        assert(src.deep_view().subrange(from as int, src.deep_view().len() as int) =~~= src
            .deep_view().skip(from as int));
    }
}

fn insert_tag_exec(m: &Vec<(String, String)>, from: usize, k: &String, v: &String) -> (r: Vec<
    (String, String),
>)
    requires
        from <= m@.len(),
    ensures
        r.deep_view() == insert_tag(m.deep_view().skip(from as int), k@, v@),
    decreases m@.len() - from,
{
    let ghost tail = m.deep_view().skip(from as int);
    if from == m.len() {
        let mut r: Vec<(String, String)> = Vec::new();
        r.push((k.clone(), v.clone()));
        proof {
            assert(tail.len() == 0);
            assert(r.deep_view() =~~= insert_tag(tail, k@, v@));
        }
        r
    } else if str_lt(k.as_str(), m[from].0.as_str()) {
        proof {
            assert(tail[0] == m.deep_view()[from as int]);
        }
        let mut r: Vec<(String, String)> = Vec::new();
        r.push((k.clone(), v.clone()));
        push_tail(&mut r, m, from);
        proof {
            assert(r.deep_view() =~~= seq![(k@, v@)] + tail);
        }
        r
    } else if String::eq(k, &m[from].0) {
        proof {
            assert(tail[0] == m.deep_view()[from as int]);
        }
        let mut r: Vec<(String, String)> = Vec::new();
        r.push((k.clone(), v.clone()));
        push_tail(&mut r, m, from + 1);
        proof {
            assert(m.deep_view().skip(from as int + 1) =~~= tail.drop_first());
            assert(r.deep_view() =~~= seq![(k@, v@)] + tail.drop_first());
        }
        r
    } else {
        proof {
            assert(tail[0] == m.deep_view()[from as int]);
        }
        let rest = insert_tag_exec(m, from + 1, k, v);
        let mut r: Vec<(String, String)> = Vec::new();
        r.push((m[from].0.clone(), m[from].1.clone()));
        push_tail(&mut r, &rest, 0);
        proof {
            assert(m.deep_view().skip(from as int + 1) =~~= tail.drop_first());
            assert(rest.deep_view().skip(0) =~~= rest.deep_view());
            assert(r.deep_view() =~~= seq![tail[0]] + insert_tag(tail.drop_first(), k@, v@));
        }
        r
    }
}

fn build_tag_map(tags: &Vec<(String, String)>) -> (r: Vec<(String, String)>)
    ensures
        r.deep_view() == tag_map(tags@),
{
    let mut acc: Vec<(String, String)> = Vec::new();
    let mut i: usize = 0;
    proof {
        assert(acc.deep_view() =~~= tag_map(tags@.take(0)));
    }
    while i < tags.len()
        invariant
            0 <= i <= tags@.len(),
            acc.deep_view() == tag_map(tags@.take(i as int)),
        decreases tags@.len() - i,
    {
        proof {
            assert(tags@.take(i as int + 1).drop_last() =~= tags@.take(i as int));
            assert(tags@.take(i as int + 1).last() == tags@[i as int]);
        }
        let next = insert_tag_exec(&acc, 0, &tags[i].0, &tags[i].1);
        proof {
            assert(acc.deep_view().skip(0) =~~= acc.deep_view());
        }
        acc = next;
        i = i + 1;
    }
    proof {
        assert(tags@.take(tags@.len() as int) =~= tags@);
    }
    acc
}

fn append_u64(out: &mut String, n: u64)
    ensures
        final(out)@ == old(out)@ + dec_str(n as nat),
{
    let s = u64_to_string(n);
    out.append(s.as_str());
}

fn append_tags_obj(out: &mut String, tags: &Vec<(String, String)>)
    ensures
        final(out)@ == old(out)@ + tags_obj(tag_map(tags@)),
{
    let tm = build_tag_map(tags);
    out.append("{");
    let mut k: usize = 0;
    proof {
        assert(tag_entries(tm.deep_view().take(0)) =~= Seq::<char>::empty());
        assert(out@ =~= old(out)@ + "{"@ + tag_entries(tm.deep_view().take(0)));
    }
    while k < tm.len()
        invariant
            0 <= k <= tm@.len(),
            tm.deep_view() == tag_map(tags@),
            tm.deep_view().len() == tm@.len(),
            out@ == old(out)@ + "{"@ + tag_entries(tm.deep_view().take(k as int)),
        decreases tm@.len() - k,
    {
        proof {
            assert(tm.deep_view().take(k as int + 1).drop_last() =~~= tm.deep_view().take(
                k as int,
            ));
            assert(tm.deep_view().take(k as int + 1).last() == tm.deep_view()[k as int]);
        }
        if k > 0 {
            out.append(",");
        }
        append_json_string(out, tm[k].0.as_str());
        out.append(":");
        append_json_string(out, tm[k].1.as_str());
        proof {
            assert(tm.deep_view()[k as int] == (tm@[k as int].0@, tm@[k as int].1@));
            assert(out@ =~= old(out)@ + "{"@ + tag_entries(tm.deep_view().take(k as int + 1)));
        }
        k = k + 1;
    }
    out.append("}");
    proof {
        assert(tm.deep_view().take(tm.deep_view().len() as int) =~~= tm.deep_view());
        assert(out@ =~= old(out)@ + tags_obj(tag_map(tags@)));
    }
}

#[verifier::rlimit(100)]
fn append_obj(out: &mut String, info: &AudioInfo)
    ensures
        final(out)@ == old(out)@ + json_obj(*info),
{
    let ghost a0 = out@;
    out.append("{\"file_path\":");
    append_json_string(out, info.file_path.as_str());
    let ghost p1 = "{\"file_path\":"@ + json_string(info.file_path@);
    proof {
        assert(out@ =~= a0 + p1);
    }
    out.append(",\"codec\":");
    match &info.codec {
        Some(c) => append_json_string(out, c.as_str()),
        None => out.append("null"),
    }
    let ghost p2 = p1 + ",\"codec\":"@ + json_opt_string(info.codec);
    proof {
        assert(out@ =~= a0 + p2);
    }
    out.append(",\"sample_rate\":");
    match info.sample_rate {
        Some(v) => append_u64(out, v as u64),
        None => out.append("null"),
    }
    let ghost p3 = p2 + ",\"sample_rate\":"@ + (match info.sample_rate {
        Some(v) => dec_str(v as nat),
        None => "null"@,
    });
    proof {
        assert(out@ =~= a0 + p3);
    }
    out.append(",\"channels\":");
    match info.channels {
        Some(v) => append_u64(out, v as u64),
        None => out.append("null"),
    }
    let ghost p4 = p3 + ",\"channels\":"@ + (match info.channels {
        Some(v) => dec_str(v as nat),
        None => "null"@,
    });
    proof {
        assert(out@ =~= a0 + p4);
    }
    out.append(",\"duration_seconds\":");
    match info.duration_seconds {
        Some(v) => append_u64(out, v),
        None => out.append("null"),
    }
    let ghost p5 = p4 + ",\"duration_seconds\":"@ + (match info.duration_seconds {
        Some(v) => dec_str(v as nat),
        None => "null"@,
    });
    proof {
        assert(out@ =~= a0 + p5);
    }
    out.append(",\"avg_bitrate_kbps\":");
    match info.avg_bitrate_kbps {
        Some(v) => append_u64(out, v as u64),
        None => out.append("null"),
    }
    let ghost p6 = p5 + ",\"avg_bitrate_kbps\":"@ + (match info.avg_bitrate_kbps {
        Some(v) => dec_str(v as nat),
        None => "null"@,
    });
    proof {
        assert(out@ =~= a0 + p6);
    }
    out.append(",\"file_size_bytes\":");
    append_u64(out, info.file_size_bytes);
    let ghost p7 = p6 + ",\"file_size_bytes\":"@ + dec_str(info.file_size_bytes as nat);
    proof {
        assert(out@ =~= a0 + p7);
    }
    out.append(",\"tags\":");
    append_tags_obj(out, &info.tags);
    out.append("}");
    let ghost p8 = p7 + ",\"tags\":"@ + tags_obj(tag_map(info.tags@)) + "}"@;
    proof {
        assert(out@ =~= a0 + p8);
        assert(p8 == json_obj(*info));
    }
}

/// Renders the results as a compact JSON array of one object per file, with
/// the eight fixed keys and `null` for absent optional fields.
pub fn json_compact(infos: &Vec<AudioInfo>) -> (out: String)
    ensures
        out@ == compact_json(infos@),
{
    let mut out = String::from_str("[");
    let mut i: usize = 0;
    proof {
        assert(json_array_body(infos@.take(0)) =~= Seq::<char>::empty());
        assert(out@ =~= "["@ + json_array_body(infos@.take(0)));
    }
    while i < infos.len()
        invariant
            0 <= i <= infos@.len(),
            out@ == "["@ + json_array_body(infos@.take(i as int)),
        decreases infos@.len() - i,
    {
        proof {
            assert(infos@.take(i as int + 1).drop_last() =~= infos@.take(i as int));
            assert(infos@.take(i as int + 1).last() == infos@[i as int]);
        }
        if i > 0 {
            out.append(",");
        }
        append_obj(&mut out, &infos[i]);
        proof {
            assert(out@ =~= "["@ + json_array_body(infos@.take(i as int + 1)));
        }
        i = i + 1;
    }
    out.append("]");
    proof {
        assert(infos@.take(infos@.len() as int) =~= infos@);
        assert(out@ =~= compact_json(infos@));
    }
    out
}

/// Renders the results as pretty-printed JSON: the compact encoding of the
/// results, re-encoded in pretty form by the JSON library.
pub fn output_json(infos: &Vec<AudioInfo>) -> (out: String)
    ensures
        out@ == pretty_of(compact_json(infos@)),
{
    let compact = json_compact(infos);
    prettify_json(compact.as_str())
}


/// Strictly ascending keys: every earlier entry's key is lexicographically
/// below every later one's, so no two entries share a key.
pub open spec fn sorted_unique_keys(m: Seq<(Seq<char>, Seq<char>)>) -> bool {
    forall|i: int, j: int|
        0 <= i < j < m.len() ==> lex_lt((#[trigger] m[i]).0, (#[trigger] m[j]).0)
}

proof fn lemma_lex_irrefl(a: Seq<char>)
    ensures
        !lex_lt(a, a),
    decreases a.len(),
{
    if a.len() > 0 {
        lemma_lex_irrefl(a.drop_first());
    }
}

proof fn lemma_lex_trans(a: Seq<char>, b: Seq<char>, c: Seq<char>)
    requires
        lex_lt(a, b),
        lex_lt(b, c),
    ensures
        lex_lt(a, c),
    decreases a.len(),
{
    if a.len() > 0 {
        if a[0] == b[0] && b[0] == c[0] {
            lemma_lex_trans(a.drop_first(), b.drop_first(), c.drop_first());
        }
    }
}

proof fn lemma_lex_connected(a: Seq<char>, b: Seq<char>)
    ensures
        lex_lt(a, b) || lex_lt(b, a) || a == b,
    decreases a.len(),
{
    if b.len() == 0 {
        if a.len() == 0 {
            assert(a =~= b);
        }
    } else if a.len() > 0 {
        if (a[0] as u32) == (b[0] as u32) {
            vstd::utf8::char_u32_cast(a[0], a[0] as u32);
            vstd::utf8::char_u32_cast(b[0], b[0] as u32);
            assert(a[0] == b[0]);
            lemma_lex_connected(a.drop_first(), b.drop_first());
            if a.drop_first() == b.drop_first() {
                assert(a.drop_first().len() == a.len() - 1);
                assert(b.drop_first().len() == b.len() - 1);
                assert(a.len() == b.len());
                assert forall|i: int| 0 <= i < a.len() implies a[i] == b[i] by {
                    if i > 0 {
                        assert(a[i] == a.drop_first()[i - 1]);
                        assert(b[i] == b.drop_first()[i - 1]);
                    }
                }
                assert(a =~= b);
            }
        }
    }
}

proof fn lemma_insert_tag_lower_bound(
    m: Seq<(Seq<char>, Seq<char>)>,
    k: Seq<char>,
    v: Seq<char>,
    x: Seq<char>,
)
    requires
        lex_lt(x, k),
        forall|i: int| 0 <= i < m.len() ==> lex_lt(x, (#[trigger] m[i]).0),
    ensures
        forall|j: int|
            0 <= j < insert_tag(m, k, v).len() ==> lex_lt(x, (#[trigger] insert_tag(m, k, v)[j]).0),
    decreases m.len(),
{
    if m.len() == 0 {
    } else if lex_lt(k, m[0].0) {
    } else if k == m[0].0 {
    } else {
        assert(forall|i: int|
            0 <= i < m.drop_first().len() ==> lex_lt(x, (#[trigger] m.drop_first()[i]).0));
        lemma_insert_tag_lower_bound(m.drop_first(), k, v, x);
        assert forall|j: int| 0 <= j < insert_tag(m, k, v).len() implies lex_lt(
            x,
            (#[trigger] insert_tag(m, k, v)[j]).0,
        ) by {
            if j > 0 {
                assert(insert_tag(m, k, v)[j] == insert_tag(m.drop_first(), k, v)[j - 1]);
            }
        }
    }
}

proof fn lemma_insert_tag_sorted(m: Seq<(Seq<char>, Seq<char>)>, k: Seq<char>, v: Seq<char>)
    requires
        sorted_unique_keys(m),
    ensures
        sorted_unique_keys(insert_tag(m, k, v)),
    decreases m.len(),
{
    let r = insert_tag(m, k, v);
    if m.len() == 0 {
    } else if lex_lt(k, m[0].0) {
        assert forall|i: int, j: int| 0 <= i < j < r.len() implies lex_lt(
            (#[trigger] r[i]).0,
            (#[trigger] r[j]).0,
        ) by {
            if i == 0 && j > 1 {
                lemma_lex_trans(k, m[0].0, m[j - 1].0);
            }
        }
    } else if k == m[0].0 {
        assert forall|i: int, j: int| 0 <= i < j < r.len() implies lex_lt(
            (#[trigger] r[i]).0,
            (#[trigger] r[j]).0,
        ) by {
            if i == 0 {
                assert(lex_lt(m[0].0, m[j].0));
            } else {
                assert(lex_lt(m[i].0, m[j].0));
            }
        }
    } else {
        lemma_lex_connected(k, m[0].0);
        assert(lex_lt(m[0].0, k));
        assert(forall|i: int|
            0 <= i < m.drop_first().len() ==> lex_lt(m[0].0, (#[trigger] m.drop_first()[i]).0));
        lemma_insert_tag_sorted(m.drop_first(), k, v);
        lemma_insert_tag_lower_bound(m.drop_first(), k, v, m[0].0);
        let rest = insert_tag(m.drop_first(), k, v);
        assert forall|i: int, j: int| 0 <= i < j < r.len() implies lex_lt(
            (#[trigger] r[i]).0,
            (#[trigger] r[j]).0,
        ) by {
            if i == 0 {
                assert(r[j] == rest[j - 1]);
            } else {
                assert(r[i] == rest[i - 1] && r[j] == rest[j - 1]);
            }
        }
    }
}

/// In the JSON representation the tags form a proper mapping: the rendered
/// entries carry strictly ascending keys, so every key appears at most once.
pub proof fn tag_map_sorted(tags: Seq<(String, String)>)
    ensures
        sorted_unique_keys(tag_map(tags)),
        forall|i: int, j: int|
            0 <= i < j < tag_map(tags).len() ==> (#[trigger] tag_map(tags)[i]).0 != (
            #[trigger] tag_map(tags)[j]).0,
    decreases tags.len(),
{
    if tags.len() > 0 {
        tag_map_sorted(tags.drop_last());
        lemma_insert_tag_sorted(tag_map(tags.drop_last()), tags.last().0@, tags.last().1@);
    }
    assert forall|i: int, j: int| 0 <= i < j < tag_map(tags).len() implies (
    #[trigger] tag_map(tags)[i]).0 != (#[trigger] tag_map(tags)[j]).0 by {
        lemma_lex_irrefl(tag_map(tags)[i].0);
    }
}

} // verus!
