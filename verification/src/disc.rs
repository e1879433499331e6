//! A CD-ROM image: raw 2352-byte sectors, and the region its license sector names.
use vstd::prelude::*;

verus! {

pub const SECTOR_LEN: usize = 2352;

#[derive(Debug)]
pub enum DiscError {
    /// The image or its cue sheet could not be read; the message says why.
    Io(String),
    /// The cue sheet or the image is not one this drive can play.
    Cue(String),
}

/// One track of the table of contents.
#[derive(Clone, Copy, Debug, PartialEq, Eq)]
pub struct Track {
    pub number: u8,
    pub start_lba: u32,
    pub audio: bool,
}

pub struct Disc {
    pub data: Vec<u8>,
    pub region: [u8; 4],
    /// The license sector carries the "Licensed" text the drive checks for.
    pub licensed: bool,
    /// Table of contents, in track order.
    pub tracks: Vec<Track>,
}

/// Whether `pat` occurs in `s` starting at `i`.
pub open spec fn occurs_at(s: Seq<u8>, pat: Seq<u8>, i: int) -> bool {
    0 <= i && i + pat.len() <= s.len() && s.subrange(i, i + pat.len()) == pat
}

/// Whether `pat` occurs anywhere in `s`.
pub open spec fn contains_bytes(s: Seq<u8>, pat: Seq<u8>) -> bool {
    exists|i: int| occurs_at(s, pat, i)
}

/// The bytes of the license sector (sector 4), or the whole image when it is shorter.
pub open spec fn license_probe(data: Seq<u8>) -> Seq<u8> {
    if data.len() >= SECTOR_LEN * 5 {
        data.subrange(SECTOR_LEN * 4, SECTOR_LEN * 5)
    } else {
        data
    }
}

pub open spec fn licensed_text() -> Seq<u8> {
    seq![0x4Cu8, 0x69u8, 0x63u8, 0x65u8, 0x6Eu8, 0x73u8, 0x65u8, 0x64u8]
}

pub open spec fn amer() -> Seq<u8> {
    seq![0x41u8, 0x6Du8, 0x65u8, 0x72u8]
}

pub open spec fn euro() -> Seq<u8> {
    seq![0x45u8, 0x75u8, 0x72u8, 0x6Fu8]
}

/// SCEA when the license sector says "Amer"(ica), SCEE for "Euro"(pe), else SCEI.
pub open spec fn region_spec(data: Seq<u8>) -> Seq<u8> {
    if contains_bytes(license_probe(data), amer()) {
        seq![0x53u8, 0x43u8, 0x45u8, 0x41u8]
    } else if contains_bytes(license_probe(data), euro()) {
        seq![0x53u8, 0x43u8, 0x45u8, 0x45u8]
    } else {
        seq![0x53u8, 0x43u8, 0x45u8, 0x49u8]
    }
}

/// Whether the four bytes `p0..p3` occur in `s[lo..hi)`.
fn find4(s: &Vec<u8>, lo: usize, hi: usize, p: [u8; 4]) -> (found: bool)
    requires
        lo <= hi <= s.len(),
    ensures
        found == contains_bytes(s@.subrange(lo as int, hi as int), p@),
{
    let ghost sub = s@.subrange(lo as int, hi as int);
    if hi - lo < 4 {
        proof {
            assert forall|i: int| !occurs_at(sub, p@, i) by {}
        }
        return false;
    }
    let mut i: usize = lo;
    while i <= hi - 4
        invariant
            lo <= i,
            i <= hi,
            hi <= s.len(),
            hi - lo >= 4,
            sub == s@.subrange(lo as int, hi as int),
            forall|k: int| 0 <= k < i - lo ==> !occurs_at(sub, p@, k),
        decreases hi - i,
    {
        if s[i] == p[0] && s[i + 1] == p[1] && s[i + 2] == p[2] && s[i + 3] == p[3] {
            proof {
                assert(sub.subrange((i - lo) as int, (i - lo) as int + 4) =~= p@);
                assert(occurs_at(sub, p@, (i - lo) as int));
            }
            return true;
        }
        proof {
            if occurs_at(sub, p@, (i - lo) as int) {
                let w = sub.subrange((i - lo) as int, (i - lo) as int + 4);
                assert(w[0] == s@[i as int] && w[1] == s@[i + 1] && w[2] == s@[i + 2] && w[3] == s@[i + 3]);
                assert(w[0] == p@[0] && w[1] == p@[1] && w[2] == p@[2] && w[3] == p@[3]);
            }
        }
        i += 1;
    }
    proof {
        assert forall|k: int| !occurs_at(sub, p@, k) by {
            if 0 <= k && k + 4 <= sub.len() {
                assert(k < i - lo);
            }
        }
    }
    false
}

/// Whether the bytes of `p` occur in `s[lo..hi)`.
fn find_bytes(s: &Vec<u8>, lo: usize, hi: usize, p: &Vec<u8>) -> (found: bool)
    requires
        lo <= hi <= s.len(),
        p.len() > 0,
    ensures
        found == contains_bytes(s@.subrange(lo as int, hi as int), p@),
{
    let ghost sub = s@.subrange(lo as int, hi as int);
    let n = p.len();
    if hi - lo < n {
        proof {
            assert forall|i: int| !occurs_at(sub, p@, i) by {}
        }
        return false;
    }
    let mut i: usize = lo;
    while i <= hi - n
        invariant
            lo <= i,
            i <= hi,
            hi <= s.len(),
            n == p.len(),
            n > 0,
            hi - lo >= n,
            sub == s@.subrange(lo as int, hi as int),
            forall|k: int| 0 <= k < i - lo ==> !occurs_at(sub, p@, k),
        decreases hi - i,
    {
        let mut j: usize = 0;
        let mut same = true;
        while j < n
            invariant
                j <= n,
                n == p.len(),
                i + n <= hi,
                hi <= s.len(),
                same == (forall|m: int| 0 <= m < j ==> s@[i + m] == p@[m]),
            decreases n - j,
        {
            if s[i + j] != p[j] {
                same = false;
            }
            j += 1;
        }
        proof {
            let w = sub.subrange((i - lo) as int, (i - lo) as int + n);
            assert forall|m: int| 0 <= m < n implies w[m] == s@[i + m] by {}
            if same {
                assert(w =~= p@);
                assert(occurs_at(sub, p@, (i - lo) as int));
            } else {
                if occurs_at(sub, p@, (i - lo) as int) {
                    assert(w == p@);
                    assert forall|m: int| 0 <= m < n implies s@[i + m] == p@[m] by {
                        assert(w[m] == p@[m]);
                    }
                }
            }
        }
        if same {
            return true;
        }
        i += 1;
    }
    proof {
        assert forall|k: int| !occurs_at(sub, p@, k) by {
            if 0 <= k && k + n <= sub.len() {
                assert(k < i - lo);
            }
        }
    }
    false
}

/// Whether the license sector carries the "Licensed" text.
pub fn is_licensed(data: &Vec<u8>) -> (r: bool)
    ensures
        r == contains_bytes(license_probe(data@), licensed_text()),
{
    let (lo, hi) = if data.len() >= SECTOR_LEN * 5 {
        (SECTOR_LEN * 4, SECTOR_LEN * 5)
    } else {
        (0, data.len())
    };
    proof {
        assert(data@.subrange(0, data@.len() as int) =~= data@);
    }
    let text: Vec<u8> = vec![0x4C, 0x69, 0x63, 0x65, 0x6E, 0x73, 0x65, 0x64];
    assert(text@ =~= licensed_text());
    find_bytes(data, lo, hi, &text)
}

/// The region of a disc image from its license sector.
pub fn region_from_license(data: &Vec<u8>) -> (r: [u8; 4])
    ensures
        r@ == region_spec(data@),
{
    let (lo, hi) = if data.len() >= SECTOR_LEN * 5 {
        (SECTOR_LEN * 4, SECTOR_LEN * 5)
    } else {
        (0, data.len())
    };
    proof {
        assert(data@.subrange(0, data@.len() as int) =~= data@);
    }
    let amer_bytes: [u8; 4] = [0x41, 0x6D, 0x65, 0x72];
    let euro_bytes: [u8; 4] = [0x45, 0x75, 0x72, 0x6F];
    assert(amer_bytes@ =~= amer());
    assert(euro_bytes@ =~= euro());
    let r: [u8; 4] = if find4(data, lo, hi, amer_bytes) {
        [0x53, 0x43, 0x45, 0x41]
    } else if find4(data, lo, hi, euro_bytes) {
        [0x53, 0x43, 0x45, 0x45]
    } else {
        [0x53, 0x43, 0x45, 0x49]
    };
    assert(r@ =~= region_spec(data@));
    r
}

impl Disc {
    /// A disc from the bytes of its image; shorter than one sector is no disc.
    pub fn from_image(data: Vec<u8>) -> (r: Result<Disc, DiscError>)
        ensures
            data.len() < SECTOR_LEN ==> r is Err,
            data.len() >= SECTOR_LEN ==> (r matches Ok(d) && d.data@ == data@ && d.region@
                == region_spec(data@) && d.licensed == contains_bytes(
                license_probe(data@),
                licensed_text(),
            ) && d.tracks@ == seq![Track { number: 1, start_lba: 0, audio: false }]),
    {
        if data.len() < SECTOR_LEN {
            return Err(DiscError::Cue(String::new()));
        }
        let region = region_from_license(&data);
        let licensed = is_licensed(&data);
        let tracks = vec![Track { number: 1, start_lba: 0, audio: false }];
        Ok(Disc { data, region, licensed, tracks })
    }

    /// Whole sectors in the image.
    pub fn sector_count(&self) -> (n: u32)
        ensures
            n == (self.data.len() / SECTOR_LEN) as u32,
    {
        (self.data.len() / SECTOR_LEN) as u32
    }

    /// Sector `lba`, if the image holds all of it.
    pub fn sector(&self, lba: u32) -> (s: Option<&[u8]>)
        ensures
            (lba + 1) * SECTOR_LEN <= self.data.len() ==> (s matches Some(b) && b@
                == self.data@.subrange(lba * SECTOR_LEN, (lba + 1) * SECTOR_LEN)),
            (lba + 1) * SECTOR_LEN > self.data.len() ==> s is None,
    {
        let n = self.data.len() / SECTOR_LEN;
        if (lba as usize) < n {
            assert((lba + 1) * SECTOR_LEN <= n * SECTOR_LEN) by (nonlinear_arith)
                requires
                    lba < n,
            ;
            assert(n * SECTOR_LEN <= self.data.len()) by (nonlinear_arith)
                requires
                    n == self.data.len() / SECTOR_LEN,
            ;
            let off = (lba as usize) * SECTOR_LEN;
            Some(vstd::slice::slice_subrange(self.data.as_slice(), off, off + SECTOR_LEN))
        } else {
            assert((lba + 1) * SECTOR_LEN > self.data.len()) by (nonlinear_arith)
                requires
                    lba >= n,
                    n == self.data.len() / SECTOR_LEN,
            ;
            None
        }
    }
}

} // verus!
