//! Content-addressed asset records: each costume is identified by the
//! MD5 digest of its bytes, rendered in lowercase hexadecimal, so
//! identical bytes always produce identical, deduplicable entries.

use vstd::prelude::*;

use md5::Digest;

use crate::makefile::AssetData;
use crate::project::{Costume, CostumeModel};

verus! {

/// The MD5 digest of a byte sequence. The digest is a function of the
/// bytes alone; what it is on given bytes is not stated here.
pub uninterp spec fn md5_of(bytes: Seq<u8>) -> Seq<u8>;

/// Relies on `md5::Md5` of the `md-5` crate: `Digest::digest` returns
/// the 16-byte MD5 digest of the input, a function of the input alone.
#[verifier::external_body]
fn md5_digest(bytes: &[u8]) -> (r: Vec<u8>)
    ensures
        r@ == md5_of(bytes@),
        r@.len() == 16,
{
    md5::Md5::digest(bytes).to_vec()
}

/// Relies on `String::push`: appends one character.
#[verifier::external_body]
pub(crate) fn push_char(s: &mut String, c: char)
    ensures
        final(s)@ == old(s)@.push(c),
{
    s.push(c);
}

/// The lowercase hexadecimal digit of a value below sixteen.
pub open spec fn hex_digit(n: u8) -> char {
    if n == 0 {
        '0'
    } else if n == 1 {
        '1'
    } else if n == 2 {
        '2'
    } else if n == 3 {
        '3'
    } else if n == 4 {
        '4'
    } else if n == 5 {
        '5'
    } else if n == 6 {
        '6'
    } else if n == 7 {
        '7'
    } else if n == 8 {
        '8'
    } else if n == 9 {
        '9'
    } else if n == 10 {
        'a'
    } else if n == 11 {
        'b'
    } else if n == 12 {
        'c'
    } else if n == 13 {
        'd'
    } else if n == 14 {
        'e'
    } else {
        'f'
    }
}

/// The lowercase hexadecimal rendering of a byte sequence: two digits
/// per byte, in order.
pub open spec fn hex_of(bytes: Seq<u8>) -> Seq<char>
    decreases bytes.len(),
{
    if bytes.len() == 0 {
        Seq::empty()
    } else {
        hex_of(bytes.drop_last()) + seq![
            hex_digit(bytes.last() / 16),
            hex_digit(bytes.last() % 16),
        ]
    }
}

fn hex_char(n: u8) -> (r: char)
    requires
        n < 16,
    ensures
        r == hex_digit(n),
{
    match n {
        0 => '0',
        1 => '1',
        2 => '2',
        3 => '3',
        4 => '4',
        5 => '5',
        6 => '6',
        7 => '7',
        8 => '8',
        9 => '9',
        10 => 'a',
        11 => 'b',
        12 => 'c',
        13 => 'd',
        14 => 'e',
        _ => 'f',
    }
}

/// Render a byte sequence in lowercase hexadecimal.
pub fn hex_string(bytes: &Vec<u8>) -> (r: String)
    ensures
        r@ == hex_of(bytes@),
{
    let mut r = String::new();
    let mut i: usize = 0;
    proof {
        assert(bytes@.take(0) =~= Seq::<u8>::empty());
    }
    while i < bytes.len()
        invariant
            i <= bytes@.len(),
            r@ == hex_of(bytes@.take(i as int)),
        decreases bytes@.len() - i,
    {
        let b = bytes[i];
        push_char(&mut r, hex_char(b / 16));
        push_char(&mut r, hex_char(b % 16));
        proof {
            assert(bytes@.take(i as int + 1).drop_last() =~= bytes@.take(i as int));
            assert(bytes@.take(i as int + 1).last() == bytes@[i as int]);
            assert(r@ =~= hex_of(bytes@.take(i as int + 1)));
        }
        i = i + 1;
    }
    proof {
        assert(bytes@.take(bytes@.len() as int) =~= bytes@);
    }
    r
}

/// The suffix after the last dot of a path, if the path holds a dot.
pub open spec fn ext_opt(p: Seq<char>) -> Option<Seq<char>>
    decreases p.len(),
{
    if p.len() == 0 {
        Option::None
    } else if p.last() == '.' {
        Option::Some(Seq::empty())
    } else {
        match ext_opt(p.drop_last()) {
            Option::Some(e) => Option::Some(e.push(p.last())),
            Option::None => Option::None,
        }
    }
}

/// The extension of a path: the suffix after its last dot, or empty
/// when it has none.
pub open spec fn ext_of(p: Seq<char>) -> Seq<char> {
    match ext_opt(p) {
        Option::Some(e) => e,
        Option::None => Seq::empty(),
    }
}

fn ext_opt_prefix(p: &str, k: usize) -> (r: Option<String>)
    requires
        k <= p@.len(),
    ensures
        match ext_opt(p@.take(k as int)) {
            Option::Some(e) => r is Some && r->0@ == e,
            Option::None => r is None,
        },
    decreases k,
{
    if k == 0 {
        proof {
            assert(p@.take(0) =~= Seq::<char>::empty());
        }
        return Option::None;
    }
    let c = p.get_char(k - 1);
    proof {
        assert(p@.take(k as int).last() == p@[k as int - 1]);
        assert(p@.take(k as int).drop_last() =~= p@.take(k as int - 1));
    }
    if c == '.' {
        Option::Some(String::new())
    } else {
        match ext_opt_prefix(p, k - 1) {
            Option::Some(mut e) => {
                push_char(&mut e, c);
                Option::Some(e)
            },
            Option::None => Option::None,
        }
    }
}

/// The extension of a path string.
pub fn extension_of(p: &String) -> (r: String)
    ensures
        r@ == ext_of(p@),
{
    let n = p.as_str().unicode_len();
    proof {
        assert(p@.take(p@.len() as int) =~= p@);
    }
    match ext_opt_prefix(p.as_str(), n) {
        Option::Some(e) => e,
        Option::None => String::new(),
    }
}

/// The costume record of a loaded asset: its data format is the
/// path's extension, its asset id the hex MD5 of its bytes, and its
/// file name the asset id followed by a dot and the extension.
pub open spec fn costume_of(a: crate::makefile::AssetModel) -> CostumeModel {
    CostumeModel {
        name: a.name,
        data_format: ext_of(a.path),
        asset_id: hex_of(md5_of(a.content)),
        md5ext: hex_of(md5_of(a.content)) + seq!['.'] + ext_of(a.path),
        rotation_center_x: Option::None,
        rotation_center_y: Option::None,
    }
}

/// Build the costume record of one asset. Identical bytes yield an
/// identical asset id and file name.
pub fn costume_record(a: &AssetData) -> (c: Costume)
    ensures
        c@ == costume_of(a@),
{
    let digest = md5_digest(a.content.as_slice());
    let hash = hex_string(&digest);
    let ext = extension_of(&a.path);
    let mut md5ext = hash.clone();
    push_char(&mut md5ext, '.');
    md5ext.append(ext.as_str());
    let c = Costume {
        name: a.name.clone(),
        data_format: ext,
        asset_id: hash,
        md5ext,
        rotation_center_x: Option::None,
        rotation_center_y: Option::None,
    };
    proof {
        assert(c.md5ext@ =~= hex_of(md5_of(a.content@)) + seq!['.'] + ext_of(a.path@));
        assert(c@ =~~= costume_of(a@));
    }
    c
}

} // verus!
