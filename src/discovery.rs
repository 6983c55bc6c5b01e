//! Which files of an input tree are audio, by extension.
use vstd::prelude::*;
use vstd::string::StringSliceAdditionalSpecFns;

verus! {

/// Number of recognised audio extensions.
pub const AUDIO_EXTENSION_COUNT: usize = 8;

/// ASCII lower case of one byte; other bytes are kept.
pub open spec fn ascii_lower(b: u8) -> u8 {
    if 65 <= b <= 90 {
        (b + 32) as u8
    } else {
        b
    }
}

/// Bytes with ASCII letters lowered.
pub open spec fn lowered(s: Seq<u8>) -> Seq<u8> {
    s.map_values(|b: u8| ascii_lower(b))
}

/// The recognised extensions, in lower case: mp3, wav, flac, m4a, ogg, aac, wma, opus.
pub open spec fn audio_extension(i: int) -> Seq<u8> {
    if i == 0 {
        seq![109u8, 112u8, 51u8]
    } else if i == 1 {
        seq![119u8, 97u8, 118u8]
    } else if i == 2 {
        seq![102u8, 108u8, 97u8, 99u8]
    } else if i == 3 {
        seq![109u8, 52u8, 97u8]
    } else if i == 4 {
        seq![111u8, 103u8, 103u8]
    } else if i == 5 {
        seq![97u8, 97u8, 99u8]
    } else if i == 6 {
        seq![119u8, 109u8, 97u8]
    } else {
        seq![111u8, 112u8, 117u8, 115u8]
    }
}

/// An extension names audio when it equals a recognised one up to ASCII case.
pub open spec fn is_audio_ext(ext: Seq<u8>) -> bool {
    exists|i: int| 0 <= i < AUDIO_EXTENSION_COUNT && lowered(ext) == #[trigger] audio_extension(i)
}

fn audio_extension_bytes(i: usize) -> (r: Vec<u8>)
    requires
        i < AUDIO_EXTENSION_COUNT,
    ensures
        r@ == audio_extension(i as int),
{
    let r = if i == 0 {
        vec![109u8, 112u8, 51u8]
    } else if i == 1 {
        vec![119u8, 97u8, 118u8]
    } else if i == 2 {
        vec![102u8, 108u8, 97u8, 99u8]
    } else if i == 3 {
        vec![109u8, 52u8, 97u8]
    } else if i == 4 {
        vec![111u8, 103u8, 103u8]
    } else if i == 5 {
        vec![97u8, 97u8, 99u8]
    } else if i == 6 {
        vec![119u8, 109u8, 97u8]
    } else {
        vec![111u8, 112u8, 117u8, 115u8]
    };
    assert(r@ =~= audio_extension(i as int));
    r
}

fn lower_byte(b: u8) -> (r: u8)
    ensures
        r == ascii_lower(b),
{
    if 65 <= b && b <= 90 {
        b + 32
    } else {
        b
    }
}

/// Whether `b`, lowered, equals `p`.
fn equals_lowered(b: &[u8], p: &Vec<u8>) -> (r: bool)
    ensures
        r == (lowered(b@) == p@),
{
    if b.len() != p.len() {
        assert(lowered(b@).len() != p@.len());
        return false;
    }
    let mut i: usize = 0;
    while i < b.len()
        invariant
            b@.len() == p@.len(),
            i <= b@.len(),
            forall|j: int| 0 <= j < i ==> ascii_lower(#[trigger] b@[j]) == p@[j],
        decreases b@.len() - i,
    {
        if lower_byte(b[i]) != p[i] {
            assert(lowered(b@)[i as int] != p@[i as int]);
            return false;
        }
        i = i + 1;
    }
    assert(lowered(b@) =~= p@);
    true
}

/// Whether a file extension names an audio format, ignoring ASCII case.
pub fn is_audio_extension(ext: &str) -> (r: bool)
    ensures
        r == is_audio_ext(ext.spec_bytes()),
{
    let b = ext.as_bytes();
    let mut i: usize = 0;
    while i < AUDIO_EXTENSION_COUNT
        invariant
            b@ == ext.spec_bytes(),
            i <= AUDIO_EXTENSION_COUNT,
            forall|j: int| 0 <= j < i ==> lowered(b@) != #[trigger] audio_extension(j),
        decreases AUDIO_EXTENSION_COUNT - i,
    {
        let p = audio_extension_bytes(i);
        if equals_lowered(b, &p) {
            return true;
        }
        i = i + 1;
    }
    false
}

} // verus!
