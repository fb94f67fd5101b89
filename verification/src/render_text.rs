//! The text renderer: one block per file, blocks separated by a blank line,
//! optional fields printed only when known, duration printed with two
//! decimal places or as the literal text `unknown`.

use vstd::prelude::*;
use crate::info::AudioInfo;
use crate::strutil::{dec_str, u64_to_string};

verus! {

/// The duration line of a block: the whole seconds with two decimal places
/// when the duration is known, the literal text `unknown` otherwise.
pub open spec fn duration_line(d: Option<u64>) -> Seq<char> {
    match d {
        Some(v) => "duration: "@ + dec_str(v as nat) + ".00s\n"@,
        None => "duration: unknown\n"@,
    }
}

/// The tag lines of a block, one `key: value` line per tag, in extraction
/// order.
pub open spec fn tag_lines(tags: Seq<(String, String)>) -> Seq<char>
    decreases tags.len(),
{
    if tags.len() == 0 {
        Seq::empty()
    } else {
        tag_lines(tags.drop_last()) + tags.last().0@ + ": "@ + tags.last().1@ + "\n"@
    }
}

/// One file's block of text: the fixed fields, each on its own line and the
/// optional ones only when known, then the tag lines unless basic mode is
/// on.
pub open spec fn text_block(info: AudioInfo, basic_only: bool) -> Seq<char> {
    "file: "@ + info.file_path@ + "\n"@ + (match info.codec {
        Some(c) => "codec: "@ + c@ + "\n"@,
        None => Seq::empty(),
    }) + (match info.sample_rate {
        Some(v) => "sample_rate: "@ + dec_str(v as nat) + "\n"@,
        None => Seq::empty(),
    }) + (match info.channels {
        Some(v) => "channels: "@ + dec_str(v as nat) + "\n"@,
        None => Seq::empty(),
    }) + duration_line(info.duration_seconds) + (match info.avg_bitrate_kbps {
        Some(v) => "avg_bitrate_kbps: "@ + dec_str(v as nat) + "\n"@,
        None => Seq::empty(),
    }) + "file_size_bytes: "@ + dec_str(info.file_size_bytes as nat) + "\n"@ + (if basic_only {
        Seq::<char>::empty()
    } else {
        tag_lines(info.tags@)
    })
}

/// The whole text output: the blocks in order, separated by one blank line.
pub open spec fn text_output(infos: Seq<AudioInfo>, basic_only: bool) -> Seq<char>
    decreases infos.len(),
{
    if infos.len() == 0 {
        Seq::empty()
    } else if infos.len() == 1 {
        text_block(infos[0], basic_only)
    } else {
        text_output(infos.drop_last(), basic_only) + "\n"@ + text_block(infos.last(), basic_only)
    }
}

/// Every block renders `duration: unknown` exactly when the item's duration
/// is absent, and a two-decimal value exactly when it is known.
pub proof fn text_duration_rendering(info: AudioInfo, basic_only: bool)
    ensures
        info.duration_seconds is None ==> duration_line(info.duration_seconds)
            == "duration: unknown\n"@,
        info.duration_seconds is Some ==> duration_line(info.duration_seconds) == "duration: "@
            + dec_str(info.duration_seconds->Some_0 as nat) + ".00s\n"@,
{
}

fn append_u64(out: &mut String, n: u64)
    ensures
        final(out)@ == old(out)@ + dec_str(n as nat),
{
    let s = u64_to_string(n);
    out.append(s.as_str());
}

#[verifier::rlimit(100)]
fn append_block(out: &mut String, info: &AudioInfo, basic_only: bool)
    ensures
        final(out)@ == old(out)@ + text_block(*info, basic_only),
{
    let ghost a0 = out@;
    out.append("file: ");
    out.append(info.file_path.as_str());
    out.append("\n");
    let ghost p1 = "file: "@ + info.file_path@ + "\n"@;
    proof {
        assert(out@ =~= a0 + p1);
    }
    match &info.codec {
        Some(c) => {
            out.append("codec: ");
            out.append(c.as_str());
            out.append("\n");
        },
        None => {},
    }
    let ghost p2 = p1 + (match &info.codec {
        Some(c) => "codec: "@ + c@ + "\n"@,
        None => Seq::<char>::empty(),
    });
    proof {
        assert(out@ =~= a0 + p2);
    }
    match info.sample_rate {
        Some(v) => {
            out.append("sample_rate: ");
            append_u64(out, v as u64);
            out.append("\n");
        },
        None => {},
    }
    let ghost p3 = p2 + (match info.sample_rate {
        Some(v) => "sample_rate: "@ + dec_str(v as nat) + "\n"@,
        None => Seq::<char>::empty(),
    });
    proof {
        assert(out@ =~= a0 + p3);
    }
    match info.channels {
        Some(v) => {
            out.append("channels: ");
            append_u64(out, v as u64);
            out.append("\n");
        },
        None => {},
    }
    let ghost p4 = p3 + (match info.channels {
        Some(v) => "channels: "@ + dec_str(v as nat) + "\n"@,
        None => Seq::<char>::empty(),
    });
    proof {
        assert(out@ =~= a0 + p4);
    }
    match info.duration_seconds {
        Some(v) => {
            out.append("duration: ");
            append_u64(out, v);
            out.append(".00s\n");
        },
        None => {
            out.append("duration: unknown\n");
        },
    }
    let ghost p5 = p4 + duration_line(info.duration_seconds);
    proof {
        assert(out@ =~= a0 + p5);
    }
    match info.avg_bitrate_kbps {
        Some(v) => {
            out.append("avg_bitrate_kbps: ");
            append_u64(out, v as u64);
            out.append("\n");
        },
        None => {},
    }
    let ghost p6 = p5 + (match info.avg_bitrate_kbps {
        Some(v) => "avg_bitrate_kbps: "@ + dec_str(v as nat) + "\n"@,
        None => Seq::<char>::empty(),
    });
    proof {
        assert(out@ =~= a0 + p6);
    }
    out.append("file_size_bytes: ");
    append_u64(out, info.file_size_bytes);
    out.append("\n");
    let ghost p7 = p6 + "file_size_bytes: "@ + dec_str(info.file_size_bytes as nat) + "\n"@;
    proof {
        assert(out@ =~= a0 + p7);
    }
    if !basic_only {
        let ghost fixed = out@;
        let mut k: usize = 0;
        proof {
            assert(tag_lines(info.tags@.take(0)) =~= Seq::<char>::empty());
            assert(out@ =~= fixed + tag_lines(info.tags@.take(0)));
        }
        while k < info.tags.len()
            invariant
                0 <= k <= info.tags@.len(),
                out@ == fixed + tag_lines(info.tags@.take(k as int)),
            decreases info.tags@.len() - k,
        {
            proof {
                assert(info.tags@.take(k as int + 1).drop_last() =~= info.tags@.take(k as int));
                assert(info.tags@.take(k as int + 1).last() == info.tags@[k as int]);
            }
            let tag = &info.tags[k];
            out.append(tag.0.as_str());
            out.append(": ");
            out.append(tag.1.as_str());
            out.append("\n");
            proof {
                assert(out@ =~= fixed + tag_lines(info.tags@.take(k as int + 1)));
            }
            k = k + 1;
        }
        proof {
            assert(info.tags@.take(info.tags@.len() as int) =~= info.tags@);
        }
    }
    let ghost p8 = p7 + (if basic_only {
        Seq::<char>::empty()
    } else {
        tag_lines(info.tags@)
    });
    proof {
        assert(out@ =~= a0 + p8);
        assert(p8 == text_block(*info, basic_only));
    }
}

/// Renders the results as text: one block per file in order, blocks
/// separated by a blank line; basic mode leaves the tag lines out.
pub fn output_text(infos: &Vec<AudioInfo>, basic_only: bool) -> (out: String)
    ensures
        out@ == text_output(infos@, basic_only),
{
    let mut out = String::new();
    let mut i: usize = 0;
    proof {
        assert(out@ =~= text_output(infos@.take(0), basic_only));
    }
    while i < infos.len()
        invariant
            0 <= i <= infos@.len(),
            out@ == text_output(infos@.take(i as int), basic_only),
        decreases infos@.len() - i,
    {
        proof {
            assert(infos@.take(i as int + 1).drop_last() =~= infos@.take(i as int));
            assert(infos@.take(i as int + 1).last() == infos@[i as int]);
        }
        if i > 0 {
            out.append("\n");
            proof {
                assert(out@ =~= text_output(infos@.take(i as int), basic_only) + "\n"@);
            }
        }
        append_block(&mut out, &infos[i], basic_only);
        proof {
            assert(out@ =~= text_output(infos@.take(i as int + 1), basic_only));
        }
        i = i + 1;
    }
    proof {
        assert(infos@.take(infos@.len() as int) =~= infos@);
    }
    out
}

} // verus!
