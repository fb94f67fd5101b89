//! The audio-file classifier: decides from a path string alone whether the
//! path names a file the tool should attempt to inspect, by comparing its
//! extension, case-insensitively, against a fixed allow-list.

use vstd::prelude::*;

verus! {

/// An upper-case ASCII letter folded to lower case; every other character is
/// kept as it is.
pub open spec fn lower_char(c: char) -> char {
    if 65 <= c as u32 && c as u32 <= 90 {
        (((c as u32) + 32) as u8) as char
    } else {
        c
    }
}

/// A character sequence with its ASCII letters folded to lower case.
pub open spec fn lower(s: Seq<char>) -> Seq<char> {
    s.map_values(|c: char| lower_char(c))
}

/// The position of the last occurrence of `c` in `s`, or `-1` if there is none.
pub open spec fn last_pos(s: Seq<char>, c: char) -> int
    decreases s.len(),
{
    if s.len() == 0 {
        -1
    } else if s.last() == c {
        s.len() - 1
    } else {
        last_pos(s.drop_last(), c)
    }
}

/// The extension of a path string: what follows the last dot of the final
/// path component, provided that dot is neither the component's first
/// character nor absent.
pub open spec fn extension_of(s: Seq<char>) -> Option<Seq<char>> {
    let slash = last_pos(s, '/');
    let dot = last_pos(s, '.');
    if dot > slash + 1 {
        Some(s.subrange(dot + 1, s.len() as int))
    } else {
        None
    }
}

/// Whether an extension, folded to lower case, is one of the recognized
/// audio-file extensions.
pub open spec fn is_audio_ext(e: Seq<char>) -> bool {
    ||| lower(e) == "mp3"@
    ||| lower(e) == "flac"@
    ||| lower(e) == "ogg"@
    ||| lower(e) == "wav"@
    ||| lower(e) == "aac"@
    ||| lower(e) == "m4a"@
    ||| lower(e) == "wma"@
}

/// Whether a path names a candidate audio file: it has an extension and the
/// extension is recognized.
pub open spec fn is_audio_path(s: Seq<char>) -> bool {
    match extension_of(s) {
        Some(e) => is_audio_ext(e),
        None => false,
    }
}

fn lower_char_exec(c: char) -> (r: char)
    ensures
        r == lower_char(c),
{
    let u = c as u32;
    if 65 <= u && u <= 90 {
        ((u + 32) as u8) as char
    } else {
        c
    }
}

/// Compares a string against a lower-case pattern, folding the string's
/// ASCII letters to lower case first.
fn eq_folded(s: &str, pat: &str) -> (r: bool)
    ensures
        r == (lower(s@) == pat@),
{
    let n = s.unicode_len();
    if n != pat.unicode_len() {
        assert(lower(s@).len() == s@.len());
        return false;
    }
    let mut i: usize = 0;
    loop
        invariant
            0 <= i <= n,
            n == s@.len(),
            n == pat@.len(),
            forall|j: int| 0 <= j < i ==> lower(s@)[j] == pat@[j],
        ensures
            i == n,
            forall|j: int| 0 <= j < i ==> lower(s@)[j] == pat@[j],
        decreases n - i,
    {
        if i == n {
            break;
        }
        let cs = lower_char_exec(s.get_char(i));
        let cp = pat.get_char(i);
        if cs as u32 != cp as u32 {
            proof {
                vstd::utf8::char_u32_cast(cs, cs as u32);
                vstd::utf8::char_u32_cast(cp, cp as u32);
            }
            assert(lower(s@)[i as int] != pat@[i as int]);
            return false;
        }
        proof {
            vstd::utf8::char_u32_cast(cs, cs as u32);
            vstd::utf8::char_u32_cast(cp, cp as u32);
        }
        i = i + 1;
    }
    proof {
        assert(lower(s@).len() == s@.len());
        assert(lower(s@) =~= pat@);
    }
    true
}

/// Decides whether a path names a file this tool should attempt to inspect:
/// true exactly when the path's extension, compared case-insensitively, is
/// one of `mp3`, `flac`, `ogg`, `wav`, `aac`, `m4a`, `wma`.
pub fn is_audio_file(path: &str) -> (r: bool)
    ensures
        r == is_audio_path(path@),
{
    let n = path.unicode_len();
    let mut slash: i128 = -1;
    let mut dot: i128 = -1;
    let mut i: usize = 0;
    loop
        invariant
            0 <= i <= n,
            n == path@.len(),
            slash == last_pos(path@.take(i as int), '/'),
            dot == last_pos(path@.take(i as int), '.'),
            -1 <= slash < i,
            -1 <= dot < i,
        ensures
            i == n,
            slash == last_pos(path@.take(i as int), '/'),
            dot == last_pos(path@.take(i as int), '.'),
            -1 <= slash < i,
            -1 <= dot < i,
        decreases n - i,
    {
        if i == n {
            break;
        }
        let c = path.get_char(i);
        proof {
            assert(path@.take(i as int + 1).drop_last() =~= path@.take(i as int));
        }
        if c as u32 == 47 {
            proof {
                vstd::utf8::char_u32_cast(c, c as u32);
                vstd::utf8::char_u32_cast('/', '/' as u32);
            }
            slash = i as i128;
        } else {
            assert(c != '/') by {
                vstd::utf8::char_u32_cast(c, c as u32);
                vstd::utf8::char_u32_cast('/', '/' as u32);
            }
        }
        if c as u32 == 46 {
            proof {
                vstd::utf8::char_u32_cast(c, c as u32);
                vstd::utf8::char_u32_cast('.', '.' as u32);
            }
            dot = i as i128;
        } else {
            assert(c != '.') by {
                vstd::utf8::char_u32_cast(c, c as u32);
                vstd::utf8::char_u32_cast('.', '.' as u32);
            }
        }
        i = i + 1;
    }
    proof {
        assert(path@.take(n as int) =~= path@);
    }
    if dot > slash + 1 {
        let ext = path.substring_char((dot + 1) as usize, n);
        assert(ext@ == extension_of(path@)->Some_0);
        eq_folded(ext, "mp3") || eq_folded(ext, "flac") || eq_folded(ext, "ogg") || eq_folded(
            ext,
            "wav",
        ) || eq_folded(ext, "aac") || eq_folded(ext, "m4a") || eq_folded(ext, "wma")
    } else {
        false
    }
}

} // verus!
