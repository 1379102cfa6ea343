//! Output file naming.
//!
//! The caller hands in the pieces a path is made of (a file stem, an
//! optional user-chosen output name, an extension) together with a
//! timestamp, and gets back the stem and extension of the file to write.
//! Reading the clock, and failing when it reports a time before the epoch,
//! is the caller's affair.

use vstd::prelude::*;

use vstd::string::StringExecFns;

verus! {

/// A user-chosen output path: its stem and, if it had one, its extension.
pub struct OutPath {
    /// The file stem.
    pub stem: String,
    /// The extension, when the user gave one.
    pub extension: Option<String>,
}

/// An output file name: stem and extension, both settled.
pub struct OutName {
    /// The file stem.
    pub stem: String,
    /// The extension.
    pub ext: String,
}

/// The character of one decimal digit.
pub open spec fn digit_char(d: nat) -> char {
    if d == 0 {
        '0'
    } else if d == 1 {
        '1'
    } else if d == 2 {
        '2'
    } else if d == 3 {
        '3'
    } else if d == 4 {
        '4'
    } else if d == 5 {
        '5'
    } else if d == 6 {
        '6'
    } else if d == 7 {
        '7'
    } else if d == 8 {
        '8'
    } else {
        '9'
    }
}

/// The decimal digits of `n`, most significant first.
pub open spec fn dec_digits(n: nat) -> Seq<char>
    decreases n,
{
    if n < 10 {
        seq![digit_char(n)]
    } else {
        dec_digits(n / 10).push(digit_char(n % 10))
    }
}

/// The decimal digits of `m`, zero-padded to three places.
pub open spec fn pad3(m: nat) -> Seq<char> {
    if m < 10 {
        seq!['0', '0'] + dec_digits(m)
    } else if m < 100 {
        seq!['0'] + dec_digits(m)
    } else {
        dec_digits(m)
    }
}

/// The generated output name: the input stem, a timestamp of seconds and
/// zero-padded milliseconds, and the cluster count when one is given.
pub open spec fn gen_name_spec(stem: Seq<char>, secs: nat, millis: nat, k: Option<u8>) -> Seq<
    char,
> {
    let base = stem + seq!['-'] + dec_digits(secs) + pad3(millis);
    match k {
        Some(x) => base + seq!['-'] + dec_digits(x as nat),
        None => base,
    }
}

/// The generated palette name: the input stem, the timestamp, the color
/// space tag, and the cluster count.
pub open spec fn gen_palette_spec(stem: Seq<char>, secs: nat, millis: nat, rgb: bool, k: u8) -> Seq<
    char,
> {
    let tag: Seq<char> = if rgb {
        seq!['r', 'g', 'b']
    } else {
        seq!['l', 'a', 'b']
    };
    stem + seq!['-'] + dec_digits(secs) + pad3(millis) + seq!['-'] + tag + seq!['-'] + dec_digits(
        k as nat,
    )
}

/// The extension the output keeps: the user's, or the supplied default.
pub open spec fn chosen_ext(o: OutPath, extension: Seq<char>) -> Seq<char> {
    match o.extension {
        Some(e) => e@,
        None => extension,
    }
}

/// The stem and extension `create_filename` settles on.
pub open spec fn create_filename_spec(
    input_len: int,
    output: Option<OutPath>,
    extension: Seq<char>,
    k: Option<u8>,
    file_stem: Seq<char>,
    secs: nat,
    millis: nat,
) -> (Seq<char>, Seq<char>) {
    match output {
        Some(o) => if input_len == 1 {
            (o.stem@, chosen_ext(o, extension))
        } else {
            (file_stem + seq!['-'] + o.stem@, chosen_ext(o, extension))
        },
        None => (gen_name_spec(file_stem, secs, millis, k), extension),
    }
}

/// The stem and extension `create_filename_palette` settles on; the
/// extension defaults to `png`.
pub open spec fn create_filename_palette_spec(
    input_len: int,
    output: Option<OutPath>,
    rgb: bool,
    k: Option<u8>,
    file_stem: Seq<char>,
    secs: nat,
    millis: nat,
) -> (Seq<char>, Seq<char>) {
    match output {
        Some(o) => if input_len == 1 {
            (o.stem@, chosen_ext(o, "png"@))
        } else {
            (file_stem + seq!['-'] + o.stem@, chosen_ext(o, "png"@))
        },
        None => (gen_palette_spec(file_stem, secs, millis, rgb, k.unwrap()), "png"@),
    }
}

/// One decimal digit as a string.
fn digit_string(d: u64) -> (s: String)
    requires
        d < 10,
    ensures
        s@ == seq![digit_char(d as nat)],
{
    if d == 0 {
        proof {
            reveal_strlit("0");
        }
        "0".to_owned()
    } else if d == 1 {
        proof {
            reveal_strlit("1");
        }
        "1".to_owned()
    } else if d == 2 {
        proof {
            reveal_strlit("2");
        }
        "2".to_owned()
    } else if d == 3 {
        proof {
            reveal_strlit("3");
        }
        "3".to_owned()
    } else if d == 4 {
        proof {
            reveal_strlit("4");
        }
        "4".to_owned()
    } else if d == 5 {
        proof {
            reveal_strlit("5");
        }
        "5".to_owned()
    } else if d == 6 {
        proof {
            reveal_strlit("6");
        }
        "6".to_owned()
    } else if d == 7 {
        proof {
            reveal_strlit("7");
        }
        "7".to_owned()
    } else if d == 8 {
        proof {
            reveal_strlit("8");
        }
        "8".to_owned()
    } else {
        proof {
            reveal_strlit("9");
        }
        "9".to_owned()
    }
}

/// The decimal representation of `n`.
pub fn u64_to_string(n: u64) -> (s: String)
    ensures
        s@ == dec_digits(n as nat),
    decreases n,
{
    if n < 10 {
        digit_string(n)
    } else {
        let mut s = u64_to_string(n / 10);
        let d = digit_string(n % 10);
        s.append(d.as_str());
        assert(s@ =~= dec_digits(n as nat));
        s
    }
}

/// The three-digit zero-padded representation of `m`.
fn pad3_string(m: u32) -> (s: String)
    requires
        m < 1000,
    ensures
        s@ == pad3(m as nat),
{
    let digits = u64_to_string(m as u64);
    if m < 10 {
        proof {
            reveal_strlit("00");
        }
        let mut s = "00".to_owned();
        s.append(digits.as_str());
        assert(s@ =~= pad3(m as nat));
        s
    } else if m < 100 {
        proof {
            reveal_strlit("0");
        }
        let mut s = "0".to_owned();
        s.append(digits.as_str());
        assert(s@ =~= pad3(m as nat));
        s
    } else {
        digits
    }
}

/// Generate an output name from an input stem, a timestamp, and an
/// optional cluster count.
pub fn generate_filename(file_stem: &String, secs: u64, millis: u32, k: Option<u8>) -> (s: String)
    requires
        millis < 1000,
    ensures
        s@ == gen_name_spec(file_stem@, secs as nat, millis as nat, k),
{
    proof {
        reveal_strlit("-");
    }
    let mut s = file_stem.clone();
    s.append("-");
    let secs_str = u64_to_string(secs);
    s.append(secs_str.as_str());
    let millis_str = pad3_string(millis);
    s.append(millis_str.as_str());
    match k {
        Some(x) => {
            s.append("-");
            let k_str = u64_to_string(x as u64);
            s.append(k_str.as_str());
            assert(s@ =~= gen_name_spec(file_stem@, secs as nat, millis as nat, k));
            s
        },
        None => {
            assert(s@ =~= gen_name_spec(file_stem@, secs as nat, millis as nat, k));
            s
        },
    }
}

/// Generate a palette name from an input stem, a timestamp, the color
/// space, and the cluster count.
pub fn generate_filename_palette(file_stem: &String, k: u8, rgb: bool, secs: u64, millis: u32) -> (s:
    String)
    requires
        millis < 1000,
    ensures
        s@ == gen_palette_spec(file_stem@, secs as nat, millis as nat, rgb, k),
{
    proof {
        reveal_strlit("-");
        reveal_strlit("rgb");
        reveal_strlit("lab");
    }
    let mut s = file_stem.clone();
    s.append("-");
    let secs_str = u64_to_string(secs);
    s.append(secs_str.as_str());
    let millis_str = pad3_string(millis);
    s.append(millis_str.as_str());
    s.append("-");
    if rgb {
        s.append("rgb");
    } else {
        s.append("lab");
    }
    s.append("-");
    let k_str = u64_to_string(k as u64);
    s.append(k_str.as_str());
    assert(s@ =~= gen_palette_spec(file_stem@, secs as nat, millis as nat, rgb, k));
    s
}

/// Settle the output file name: a user-chosen output keeps its stem (for
/// several inputs, prefixed by the input's stem) and gets the default
/// extension when it has none; without one, a name is generated from the
/// input stem and the timestamp.
pub fn create_filename(
    input_len: usize,
    output: &Option<OutPath>,
    extension: &String,
    k: Option<u8>,
    file_stem: &String,
    secs: u64,
    millis: u32,
) -> (r: OutName)
    requires
        millis < 1000,
    ensures
        r.stem@ == create_filename_spec(
            input_len as int,
            *output,
            extension@,
            k,
            file_stem@,
            secs as nat,
            millis as nat,
        ).0,
        r.ext@ == create_filename_spec(
            input_len as int,
            *output,
            extension@,
            k,
            file_stem@,
            secs as nat,
            millis as nat,
        ).1,
{
    match output {
        Some(o) => {
            let ext = match &o.extension {
                Some(e) => e.clone(),
                None => extension.clone(),
            };
            if input_len == 1 {
                OutName { stem: o.stem.clone(), ext }
            } else {
                proof {
                    reveal_strlit("-");
                }
                let mut stem = file_stem.clone();
                stem.append("-");
                stem.append(o.stem.as_str());
                assert(stem@ =~= file_stem@ + seq!['-'] + o.stem@);
                OutName { stem, ext }
            }
        },
        None => OutName {
            stem: generate_filename(file_stem, secs, millis, k),
            ext: extension.clone(),
        },
    }
}

/// Settle the palette file name, as `create_filename` does, with `png` as
/// the extension and the color space and cluster count in a generated
/// name.
pub fn create_filename_palette(
    input_len: usize,
    output: &Option<OutPath>,
    rgb: bool,
    k: Option<u8>,
    file_stem: &String,
    secs: u64,
    millis: u32,
) -> (r: OutName)
    requires
        millis < 1000,
        output is Some || k is Some,
    ensures
        r.stem@ == create_filename_palette_spec(
            input_len as int,
            *output,
            rgb,
            k,
            file_stem@,
            secs as nat,
            millis as nat,
        ).0,
        r.ext@ == create_filename_palette_spec(
            input_len as int,
            *output,
            rgb,
            k,
            file_stem@,
            secs as nat,
            millis as nat,
        ).1,
{
    proof {
        reveal_strlit("png");
    }
    match output {
        Some(o) => {
            let ext = match &o.extension {
                Some(e) => e.clone(),
                None => "png".to_owned(),
            };
            if input_len == 1 {
                OutName { stem: o.stem.clone(), ext }
            } else {
                proof {
                    reveal_strlit("-");
                }
                let mut stem = file_stem.clone();
                stem.append("-");
                stem.append(o.stem.as_str());
                assert(stem@ =~= file_stem@ + seq!['-'] + o.stem@);
                OutName { stem, ext }
            }
        },
        None => {
            let k_val = match k {
                Some(x) => x,
                None => 0,
            };
            OutName {
                stem: generate_filename_palette(file_stem, k_val, rgb, secs, millis),
                ext: "png".to_owned(),
            }
        },
    }
}

} // verus!
