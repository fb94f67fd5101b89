//! The CSV renderer: one fixed header row, then one row per file with the
//! non-tag fields comma-joined, an empty string standing for any absent
//! optional field. Tags are never included.

use vstd::prelude::*;
use crate::info::AudioInfo;
use crate::strutil::{dec_digit, dec_str, u64_to_string};

verus! {

/// The fixed header row.
pub open spec fn csv_header() -> Seq<char> {
    "file_path,codec,sample_rate,channels,duration_seconds,avg_bitrate_kbps,file_size_bytes\n"@
}

/// One file's row: the seven fields comma-joined, empty for an absent
/// optional field, duration with two decimal places.
pub open spec fn csv_row(info: AudioInfo) -> Seq<char> {
    info.file_path@ + ","@ + (match info.codec {
        Some(c) => c@,
        None => Seq::<char>::empty(),
    }) + ","@ + (match info.sample_rate {
        Some(v) => dec_str(v as nat),
        None => Seq::<char>::empty(),
    }) + ","@ + (match info.channels {
        Some(v) => dec_str(v as nat),
        None => Seq::<char>::empty(),
    }) + ","@ + (match info.duration_seconds {
        Some(v) => dec_str(v as nat) + ".00"@,
        None => Seq::<char>::empty(),
    }) + ","@ + (match info.avg_bitrate_kbps {
        Some(v) => dec_str(v as nat),
        None => Seq::<char>::empty(),
    }) + ","@ + dec_str(info.file_size_bytes as nat) + "\n"@
}

/// The data rows, in order.
pub open spec fn csv_rows(infos: Seq<AudioInfo>) -> Seq<char>
    decreases infos.len(),
{
    if infos.len() == 0 {
        Seq::empty()
    } else {
        csv_rows(infos.drop_last()) + csv_row(infos.last())
    }
}

/// The whole CSV output: the header row, then one row per file.
pub open spec fn csv_output(infos: Seq<AudioInfo>) -> Seq<char> {
    csv_header() + csv_rows(infos)
}

fn append_u64(out: &mut String, n: u64)
    ensures
        final(out)@ == old(out)@ + dec_str(n as nat),
{
    let s = u64_to_string(n);
    out.append(s.as_str());
}

#[verifier::rlimit(100)]
fn append_row(out: &mut String, info: &AudioInfo)
    ensures
        final(out)@ == old(out)@ + csv_row(*info),
{
    let ghost a0 = out@;
    out.append(info.file_path.as_str());
    out.append(",");
    let ghost p1 = info.file_path@ + ","@;
    proof {
        assert(out@ =~= a0 + p1);
    }
    match &info.codec {
        Some(c) => out.append(c.as_str()),
        None => {},
    }
    out.append(",");
    let ghost p2 = p1 + (match &info.codec {
        Some(c) => c@,
        None => Seq::<char>::empty(),
    }) + ","@;
    proof {
        assert(out@ =~= a0 + p2);
    }
    match info.sample_rate {
        Some(v) => append_u64(out, v as u64),
        None => {},
    }
    out.append(",");
    let ghost p3 = p2 + (match info.sample_rate {
        Some(v) => dec_str(v as nat),
        None => Seq::<char>::empty(),
    }) + ","@;
    proof {
        assert(out@ =~= a0 + p3);
    }
    match info.channels {
        Some(v) => append_u64(out, v as u64),
        None => {},
    }
    out.append(",");
    let ghost p4 = p3 + (match info.channels {
        Some(v) => dec_str(v as nat),
        None => Seq::<char>::empty(),
    }) + ","@;
    proof {
        assert(out@ =~= a0 + p4);
    }
    match info.duration_seconds {
        Some(v) => {
            append_u64(out, v);
            out.append(".00");
        },
        None => {},
    }
    out.append(",");
    let ghost p5 = p4 + (match info.duration_seconds {
        Some(v) => dec_str(v as nat) + ".00"@,
        None => Seq::<char>::empty(),
    }) + ","@;
    proof {
        assert(out@ =~= a0 + p5);
    }
    match info.avg_bitrate_kbps {
        Some(v) => append_u64(out, v as u64),
        None => {},
    }
    out.append(",");
    let ghost p6 = p5 + (match info.avg_bitrate_kbps {
        Some(v) => dec_str(v as nat),
        None => Seq::<char>::empty(),
    }) + ","@;
    proof {
        assert(out@ =~= a0 + p6);
    }
    append_u64(out, info.file_size_bytes);
    out.append("\n");
    let ghost p7 = p6 + dec_str(info.file_size_bytes as nat) + "\n"@;
    proof {
        assert(out@ =~= a0 + p7);
        assert(p7 == csv_row(*info));
    }
}

/// Renders the results as CSV: exactly one header row, then exactly one row
/// per processed file, each with the seven non-tag fields and no tag data.
pub fn output_csv(infos: &Vec<AudioInfo>) -> (out: String)
    ensures
        out@ == csv_output(infos@),
{
    let mut out = String::from_str(
        "file_path,codec,sample_rate,channels,duration_seconds,avg_bitrate_kbps,file_size_bytes\n",
    );
    let mut i: usize = 0;
    proof {
        assert(csv_rows(infos@.take(0)) =~= Seq::<char>::empty());
        assert(out@ =~= csv_header() + csv_rows(infos@.take(0)));
    }
    while i < infos.len()
        invariant
            0 <= i <= infos@.len(),
            out@ == csv_header() + csv_rows(infos@.take(i as int)),
        decreases infos@.len() - i,
    {
        proof {
            assert(infos@.take(i as int + 1).drop_last() =~= infos@.take(i as int));
            assert(infos@.take(i as int + 1).last() == infos@[i as int]);
        }
        append_row(&mut out, &infos[i]);
        proof {
            assert(out@ =~= csv_header() + csv_rows(infos@.take(i as int + 1)));
        }
        i = i + 1;
    }
    proof {
        assert(infos@.take(infos@.len() as int) =~= infos@);
    }
    out
}


/// The number of occurrences of one character in a sequence.
pub open spec fn count_char(s: Seq<char>, c: char) -> nat
    decreases s.len(),
{
    if s.len() == 0 {
        0
    } else {
        count_char(s.drop_last(), c) + (if s.last() == c {
            1nat
        } else {
            0nat
        })
    }
}

pub broadcast proof fn lemma_count_concat(a: Seq<char>, b: Seq<char>, c: char)
    ensures
        #[trigger] count_char(a + b, c) == count_char(a, c) + count_char(b, c),
    decreases b.len(),
{
    if b.len() == 0 {
        assert(a + b =~= a);
    } else {
        assert((a + b).drop_last() =~= a + b.drop_last());
        assert((a + b).last() == b.last());
        lemma_count_concat(a, b.drop_last(), c);
    }
}

proof fn lemma_count_none(s: Seq<char>, c: char)
    requires
        forall|i: int| 0 <= i < s.len() ==> s[i] != c,
    ensures
        count_char(s, c) == 0,
    decreases s.len(),
{
    if s.len() > 0 {
        lemma_count_none(s.drop_last(), c);
    }
}

proof fn lemma_count_one(s: Seq<char>, c: char, j: int)
    requires
        0 <= j < s.len(),
        s[j] == c,
        forall|i: int| 0 <= i < s.len() && i != j ==> s[i] != c,
    ensures
        count_char(s, c) == 1,
    decreases s.len(),
{
    if j == s.len() - 1 {
        lemma_count_none(s.drop_last(), c);
    } else {
        lemma_count_one(s.drop_last(), c, j);
    }
}

proof fn lemma_dec_str_clean(n: nat, c: char)
    requires
        (c as u32) < 48 || (c as u32) > 57,
    ensures
        count_char(dec_str(n), c) == 0,
    decreases n,
{
    if n < 10 {
        assert(dec_digit(n) as u32 == 48 + n);
        lemma_count_none(seq![dec_digit(n)], c);
    } else {
        lemma_dec_str_clean(n / 10, c);
        assert(dec_digit(n % 10) as u32 == 48 + n % 10);
        assert(dec_str(n).drop_last() =~= dec_str(n / 10));
    }
}

proof fn lemma_csv_row_counts(info: AudioInfo)
    requires
        count_char(info.file_path@, ',') == 0,
        count_char(info.file_path@, '\n') == 0,
        match info.codec {
            Some(c) => count_char(c@, ',') == 0 && count_char(c@, '\n') == 0,
            None => true,
        },
    ensures
        count_char(csv_row(info), ',') == 6,
        count_char(csv_row(info), '\n') == 1,
{
    broadcast use lemma_count_concat;

    reveal_strlit(",");
    reveal_strlit("\n");
    reveal_strlit(".00");
    lemma_count_one(","@, ',', 0);
    lemma_count_none(","@, '\n');
    lemma_count_none("\n"@, ',');
    lemma_count_one("\n"@, '\n', 0);
    lemma_count_none(".00"@, ',');
    lemma_count_none(".00"@, '\n');
    assert(count_char(Seq::<char>::empty(), ',') == 0);
    assert(count_char(Seq::<char>::empty(), '\n') == 0);
    match info.sample_rate {
        Some(v) => {
            lemma_dec_str_clean(v as nat, ',');
            lemma_dec_str_clean(v as nat, '\n');
        },
        None => {},
    }
    match info.channels {
        Some(v) => {
            lemma_dec_str_clean(v as nat, ',');
            lemma_dec_str_clean(v as nat, '\n');
        },
        None => {},
    }
    match info.duration_seconds {
        Some(v) => {
            lemma_dec_str_clean(v as nat, ',');
            lemma_dec_str_clean(v as nat, '\n');
        },
        None => {},
    }
    match info.avg_bitrate_kbps {
        Some(v) => {
            lemma_dec_str_clean(v as nat, ',');
            lemma_dec_str_clean(v as nat, '\n');
        },
        None => {},
    }
    lemma_dec_str_clean(info.file_size_bytes as nat, ',');
    lemma_dec_str_clean(info.file_size_bytes as nat, '\n');
}

proof fn lemma_csv_rows_newlines(infos: Seq<AudioInfo>)
    requires
        forall|i: int|
            0 <= i < infos.len() ==> count_char((#[trigger] infos[i]).file_path@, ',') == 0
                && count_char(infos[i].file_path@, '\n') == 0,
        forall|i: int|
            0 <= i < infos.len() ==> match (#[trigger] infos[i]).codec {
                Some(c) => count_char(c@, ',') == 0 && count_char(c@, '\n') == 0,
                None => true,
            },
    ensures
        count_char(csv_rows(infos), '\n') == infos.len(),
    decreases infos.len(),
{
    broadcast use lemma_count_concat;

    if infos.len() > 0 {
        lemma_csv_rows_newlines(infos.drop_last());
        lemma_csv_row_counts(infos.last());
    }
}

/// The CSV output is exactly one header row plus one row per processed
/// file: its line endings number one more than the files. Each data row
/// holds exactly seven comma-separated fields — six commas — and one line
/// ending, provided the file's path and codec text are themselves free of
/// commas and newlines.
pub proof fn csv_shape(infos: Seq<AudioInfo>)
    requires
        forall|i: int|
            0 <= i < infos.len() ==> count_char((#[trigger] infos[i]).file_path@, ',') == 0
                && count_char(infos[i].file_path@, '\n') == 0,
        forall|i: int|
            0 <= i < infos.len() ==> match (#[trigger] infos[i]).codec {
                Some(c) => count_char(c@, ',') == 0 && count_char(c@, '\n') == 0,
                None => true,
            },
    ensures
        count_char(csv_output(infos), '\n') == 1 + infos.len(),
        forall|i: int| 0 <= i < infos.len() ==> count_char(csv_row(#[trigger] infos[i]), ',') == 6,
        forall|i: int|
            0 <= i < infos.len() ==> count_char(csv_row(#[trigger] infos[i]), '\n') == 1,
{
    broadcast use lemma_count_concat;

    reveal_strlit(
        "file_path,codec,sample_rate,channels,duration_seconds,avg_bitrate_kbps,file_size_bytes\n",
    );
    lemma_count_one(csv_header(), '\n', csv_header().len() - 1);
    lemma_csv_rows_newlines(infos);
    assert forall|i: int| 0 <= i < infos.len() implies count_char(
        csv_row(#[trigger] infos[i]),
        ',',
    ) == 6 && count_char(csv_row(infos[i]), '\n') == 1 by {
        lemma_csv_row_counts(infos[i]);
    }
}

} // verus!
