//! The bytes of a captured audio file: 16-bit stereo PCM at 44100 Hz in a WAV container.
use vstd::prelude::*;

verus! {

/// Little-endian bytes of a 16-bit value.
pub open spec fn le16(v: int) -> Seq<u8> {
    seq![(v % 0x100) as u8, ((v / 0x100) % 0x100) as u8]
}

/// Little-endian bytes of a 32-bit value.
pub open spec fn le32(v: int) -> Seq<u8> {
    seq![
        (v % 0x100) as u8,
        ((v / 0x100) % 0x100) as u8,
        ((v / 0x1_0000) % 0x100) as u8,
        ((v / 0x100_0000) % 0x100) as u8,
    ]
}

pub open spec fn riff() -> Seq<u8> {
    seq![0x52u8, 0x49, 0x46, 0x46]
}

pub open spec fn wave() -> Seq<u8> {
    seq![0x57u8, 0x41, 0x56, 0x45]
}

pub open spec fn fmt_tag() -> Seq<u8> {
    seq![0x66u8, 0x6D, 0x74, 0x20]
}

pub open spec fn data_tag() -> Seq<u8> {
    seq![0x64u8, 0x61, 0x74, 0x61]
}

/// The 44-byte header for `samples` 16-bit samples: RIFF size, a PCM fmt chunk for two
/// channels at 44100 Hz, and the data chunk size.
pub open spec fn wav_header(samples: nat) -> Seq<u8> {
    riff() + le32(36 + 2 * samples as int) + wave() + fmt_tag() + le32(16) + le16(1) + le16(2)
        + le32(44100) + le32(44100 * 2 * 2int) + le16(4) + le16(16) + data_tag() + le32(
        2 * samples as int,
    )
}

/// The samples as little-endian two's-complement bytes.
pub open spec fn pcm_bytes(pcm: Seq<i16>) -> Seq<u8>
    decreases pcm.len(),
{
    if pcm.len() == 0 {
        Seq::empty()
    } else {
        let s = pcm.last() as int;
        pcm_bytes(pcm.drop_last()) + le16(
            if s < 0 {
                s + 0x1_0000
            } else {
                s
            },
        )
    }
}

fn push_le16(out: &mut Vec<u8>, v: u16)
    ensures
        final(out)@ == old(out)@ + le16(v as int),
{
    out.push((v % 0x100) as u8);
    out.push((v / 0x100) as u8);
    assert(final(out)@ =~= old(out)@ + le16(v as int)) by {
    }
}

fn push_le32(out: &mut Vec<u8>, v: u32)
    ensures
        final(out)@ == old(out)@ + le32(v as int),
{
    out.push((v % 0x100) as u8);
    out.push(((v / 0x100) % 0x100) as u8);
    out.push(((v / 0x1_0000) % 0x100) as u8);
    out.push(((v / 0x100_0000) % 0x100) as u8);
    assert(final(out)@ =~= old(out)@ + le32(v as int)) by {
    }
}

/// The whole WAV file for interleaved stereo samples.
pub fn wav_bytes(pcm: &Vec<i16>) -> (b: Vec<u8>)
    requires
        36 + 2 * pcm.len() <= u32::MAX,
    ensures
        b@ == wav_header(pcm.len() as nat) + pcm_bytes(pcm@),
{
    let data_bytes: u32 = (pcm.len() * 2) as u32;
    let mut out: Vec<u8> = Vec::new();
    out.push(0x52);
    out.push(0x49);
    out.push(0x46);
    out.push(0x46);
    assert(out@ =~= riff());
    push_le32(&mut out, 36 + data_bytes);
    out.push(0x57);
    out.push(0x41);
    out.push(0x56);
    out.push(0x45);
    out.push(0x66);
    out.push(0x6D);
    out.push(0x74);
    out.push(0x20);
    assert(out@ =~= riff() + le32(36 + 2 * pcm.len()) + wave() + fmt_tag());
    push_le32(&mut out, 16);
    push_le16(&mut out, 1);
    push_le16(&mut out, 2);
    push_le32(&mut out, 44100);
    push_le32(&mut out, 44100 * 2 * 2);
    push_le16(&mut out, 4);
    push_le16(&mut out, 16);
    out.push(0x64);
    out.push(0x61);
    out.push(0x74);
    out.push(0x61);
    push_le32(&mut out, data_bytes);
    let ghost header = out@;
    assert(header =~= wav_header(pcm.len() as nat));
    let mut i: usize = 0;
    while i < pcm.len()
        invariant
            i <= pcm.len(),
            header == wav_header(pcm.len() as nat),
            out@ == header + pcm_bytes(pcm@.subrange(0, i as int)),
        decreases pcm.len() - i,
    {
        let s = pcm[i];
        let u: u16 = if s < 0 {
            (s as i32 + 0x1_0000) as u16
        } else {
            s as u16
        };
        proof {
            let sub = pcm@.subrange(0, i as int + 1);
            assert(sub.drop_last() =~= pcm@.subrange(0, i as int));
            assert(sub.last() == s);
        }
        push_le16(&mut out, u);
        proof {
            assert(out@ =~= header + pcm_bytes(pcm@.subrange(0, i as int + 1)));
        }
        i += 1;
    }
    proof {
        assert(pcm@.subrange(0, pcm@.len() as int) =~= pcm@);
    }
    out
}

} // verus!
