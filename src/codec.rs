use crate::package::{has_key, key_of, views_of, InstallState, Package, PackageView};
use crate::reconcile::{update_count_of, StorageError};
use vstd::bytes::{
    lemma_auto_spec_u64_to_from_le_bytes, spec_u64_from_le_bytes,
    u64_from_le_bytes, u64_to_le_bytes,
};
use vstd::prelude::*;

verus! {

// The channel database file: a little-endian `u64` count of packages, then
// each package as its index (`u64`), its name, version, build hash and
// download URL (each a `u64` byte length and that many bytes of UTF-8), a
// checksum (tag byte 0 for none, 1 followed by a text), and its install state
// as one byte (0 not installed, 1 installed, 2 in progress).

/// The text that `String::from_utf8` makes of `b`, if `b` is valid UTF-8.
pub uninterp spec fn utf8_text(b: Seq<u8>) -> Option<Seq<char>>;

/// Relies on `String::into_bytes`: the result is the string's UTF-8
/// encoding, which `String::from_utf8` decodes to the same text.
#[verifier::external_body]
fn text_into_bytes(s: String) -> (r: Vec<u8>)
    ensures
        utf8_text(r@) == Some(s@),
{
    s.into_bytes()
}

/// Relies on `String::from_utf8`: it returns the text of valid UTF-8 and
/// fails on anything else.
#[verifier::external_body]
fn text_from_bytes(b: Vec<u8>) -> (r: Option<String>)
    ensures
        match r {
            Some(s) => utf8_text(b@) == Some(s@),
            None => utf8_text(b@) is None,
        },
{
    String::from_utf8(b).ok()
}

pub open spec fn parse_u64(s: Seq<u8>) -> Option<(u64, Seq<u8>)> {
    if s.len() >= 8 {
        Some((spec_u64_from_le_bytes(s.take(8)), s.skip(8)))
    } else {
        None
    }
}

pub open spec fn parse_byte(s: Seq<u8>) -> Option<(u8, Seq<u8>)> {
    if s.len() >= 1 {
        Some((s[0], s.skip(1)))
    } else {
        None
    }
}

pub open spec fn parse_text(s: Seq<u8>) -> Option<(Seq<char>, Seq<u8>)> {
    match parse_u64(s) {
        Some((n, r)) => if n <= r.len() {
            match utf8_text(r.take(n as int)) {
                Some(t) => Some((t, r.skip(n as int))),
                None => None,
            }
        } else {
            None
        },
        None => None,
    }
}

pub open spec fn parse_checksum(s: Seq<u8>) -> Option<(Option<Seq<char>>, Seq<u8>)> {
    match parse_byte(s) {
        Some((tag, r)) => if tag == 0 {
            Some((None, r))
        } else if tag == 1 {
            match parse_text(r) {
                Some((t, r2)) => Some((Some(t), r2)),
                None => None,
            }
        } else {
            None
        },
        None => None,
    }
}

pub open spec fn install_state_of(b: u8) -> Option<InstallState> {
    if b == 0 {
        Some(InstallState::NotInstalled)
    } else if b == 1 {
        Some(InstallState::Installed)
    } else if b == 2 {
        Some(InstallState::InstallInProgress)
    } else {
        None
    }
}

pub open spec fn install_state_byte(st: InstallState) -> u8 {
    match st {
        InstallState::NotInstalled => 0,
        InstallState::Installed => 1,
        InstallState::InstallInProgress => 2,
    }
}

/// One package at the front of `s`, and what follows it.
pub open spec fn parse_package(s: Seq<u8>) -> Option<(PackageView, Seq<u8>)> {
    match parse_u64(s) {
        None => None,
        Some((i, s1)) => if i > usize::MAX {
            None
        } else {
            match parse_text(s1) {
                None => None,
                Some((name, s2)) => match parse_text(s2) {
                    None => None,
                    Some((version, s3)) => match parse_text(s3) {
                        None => None,
                        Some((build_hash, s4)) => match parse_text(s4) {
                            None => None,
                            Some((download_url, s5)) => match parse_checksum(s5) {
                                None => None,
                                Some((checksum, s6)) => match parse_byte(s6) {
                                    None => None,
                                    Some((b, s7)) => match install_state_of(b) {
                                        None => None,
                                        Some(install_state) => Some(
                                            (
                                                PackageView {
                                                    index: i as usize,
                                                    name,
                                                    version,
                                                    build_hash,
                                                    download_url,
                                                    checksum,
                                                    install_state,
                                                },
                                                s7,
                                            ),
                                        ),
                                    },
                                },
                            },
                        },
                    },
                },
            }
        },
    }
}

/// `count` packages at the front of `s`, and what follows them.
pub open spec fn parse_packages(s: Seq<u8>, count: nat) -> Option<(Seq<PackageView>, Seq<u8>)>
    decreases count,
{
    if count == 0 {
        Some((Seq::empty(), s))
    } else {
        match parse_package(s) {
            None => None,
            Some((p, r)) => match parse_packages(r, (count - 1) as nat) {
                None => None,
                Some((ps, r2)) => Some((seq![p] + ps, r2)),
            },
        }
    }
}

/// The database that the bytes `b` hold, if they are a well-formed file:
/// a count, that many packages, and nothing after them.
pub open spec fn parse_database(b: Seq<u8>) -> Option<Seq<PackageView>> {
    match parse_u64(b) {
        None => None,
        Some((n, r)) => match parse_packages(r, n as nat) {
            None => None,
            Some((ps, rest)) => if rest.len() == 0 {
                Some(ps)
            } else {
                None
            },
        },
    }
}

/// How a reader's result at `pos` of `b` stands to the spec parser's result on
/// the bytes from `pos` on.
pub open spec fn read_matches<T>(
    r: Option<(T, usize)>,
    parsed: Option<(T, Seq<u8>)>,
    b: Seq<u8>,
    pos: int,
) -> bool {
    match r {
        None => parsed is None,
        Some((v, p)) => pos <= p <= b.len() && parsed == Some((v, b.skip(p as int))),
    }
}

fn copy_range(b: &Vec<u8>, from: usize, to: usize) -> (r: Vec<u8>)
    requires
        from <= to <= b@.len(),
    ensures
        r@ == b@.subrange(from as int, to as int),
{
    let mut r: Vec<u8> = Vec::new();
    let mut i: usize = from;
    while i < to
        invariant
            from <= i <= to <= b@.len(),
            r@ == b@.subrange(from as int, i as int),
        decreases to - i,
    {
        r.push(b[i]);
        i = i + 1;
        proof {
            assert(r@ =~= b@.subrange(from as int, i as int));
        }
    }
    r
}

fn read_u64(b: &Vec<u8>, pos: usize) -> (r: Option<(u64, usize)>)
    requires
        pos <= b@.len(),
    ensures
        read_matches(r, parse_u64(b@.skip(pos as int)), b@, pos as int),
{
    if b.len() - pos < 8 {
        return None;
    }
    let bytes = copy_range(b, pos, pos + 8);
    let v = u64_from_le_bytes(bytes.as_slice());
    proof {
        assert(b@.skip(pos as int).take(8) =~= b@.subrange(pos as int, pos + 8));
        assert(b@.skip(pos as int).skip(8) =~= b@.skip(pos + 8));
    }
    Some((v, pos + 8))
}

fn read_byte(b: &Vec<u8>, pos: usize) -> (r: Option<(u8, usize)>)
    requires
        pos <= b@.len(),
    ensures
        read_matches(r, parse_byte(b@.skip(pos as int)), b@, pos as int),
{
    if pos >= b.len() {
        return None;
    }
    proof {
        assert(b@.skip(pos as int).skip(1) =~= b@.skip(pos + 1));
    }
    Some((b[pos], pos + 1))
}

fn read_text(b: &Vec<u8>, pos: usize) -> (r: Option<(String, usize)>)
    requires
        pos <= b@.len(),
    ensures
        match r {
            None => parse_text(b@.skip(pos as int)) is None,
            Some((t, p)) => pos <= p <= b@.len() && parse_text(b@.skip(pos as int)) == Some(
                (t@, b@.skip(p as int)),
            ),
        },
{
    let (n, p) = match read_u64(b, pos) {
        None => return None,
        Some(x) => x,
    };
    if n > (b.len() - p) as u64 {
        return None;
    }
    let end = p + n as usize;
    let bytes = copy_range(b, p, end);
    proof {
        assert(b@.skip(p as int).take(n as int) =~= b@.subrange(p as int, end as int));
        assert(b@.skip(p as int).skip(n as int) =~= b@.skip(end as int));
    }
    match text_from_bytes(bytes) {
        None => None,
        Some(t) => Some((t, end)),
    }
}

fn read_checksum(b: &Vec<u8>, pos: usize) -> (r: Option<(Option<String>, usize)>)
    requires
        pos <= b@.len(),
    ensures
        match r {
            None => parse_checksum(b@.skip(pos as int)) is None,
            Some((c, p)) => pos <= p <= b@.len() && parse_checksum(b@.skip(pos as int)) == Some(
                (
                    match c {
                        Some(t) => Some(t@),
                        None => None,
                    },
                    b@.skip(p as int),
                ),
            ),
        },
{
    let (tag, p) = match read_byte(b, pos) {
        None => return None,
        Some(x) => x,
    };
    if tag == 0 {
        Some((None, p))
    } else if tag == 1 {
        match read_text(b, p) {
            None => None,
            Some((t, q)) => Some((Some(t), q)),
        }
    } else {
        None
    }
}

fn install_state_from_byte(x: u8) -> (r: Option<InstallState>)
    ensures
        r == install_state_of(x),
{
    if x == 0 {
        Some(InstallState::NotInstalled)
    } else if x == 1 {
        Some(InstallState::Installed)
    } else if x == 2 {
        Some(InstallState::InstallInProgress)
    } else {
        None
    }
}

fn read_package(b: &Vec<u8>, pos: usize) -> (r: Option<(Package, usize)>)
    requires
        pos <= b@.len(),
    ensures
        match r {
            None => parse_package(b@.skip(pos as int)) is None,
            Some((pk, p)) => pos <= p <= b@.len() && parse_package(b@.skip(pos as int)) == Some(
                (pk@, b@.skip(p as int)),
            ),
        },
{
    let (i, p1) = match read_u64(b, pos) {
        None => return None,
        Some(x) => x,
    };
    if i as u128 > usize::MAX as u128 {
        return None;
    }
    let (name, p2) = match read_text(b, p1) {
        None => return None,
        Some(x) => x,
    };
    let (version, p3) = match read_text(b, p2) {
        None => return None,
        Some(x) => x,
    };
    let (build_hash, p4) = match read_text(b, p3) {
        None => return None,
        Some(x) => x,
    };
    let (download_url, p5) = match read_text(b, p4) {
        None => return None,
        Some(x) => x,
    };
    let (checksum, p6) = match read_checksum(b, p5) {
        None => return None,
        Some(x) => x,
    };
    let (sb, p7) = match read_byte(b, p6) {
        None => return None,
        Some(x) => x,
    };
    let install_state = match install_state_from_byte(sb) {
        None => return None,
        Some(st) => st,
    };
    let pk = Package {
        index: i as usize,
        name,
        version,
        build_hash,
        download_url,
        checksum,
        install_state,
    };
    Some((pk, p7))
}

/// Decodes a channel database file. Bytes that are not a well-formed file are
/// `StorageError::Corrupt`.
pub fn decode_database(b: &Vec<u8>) -> (r: Result<Vec<Package>, StorageError>)
    ensures
        match r {
            Ok(db) => parse_database(b@) == Some(views_of(db@)),
            Err(e) => e == StorageError::Corrupt && parse_database(b@) is None,
        },
{
    proof {
        assert(b@.skip(0) =~= b@);
    }
    let (n, p0) = match read_u64(b, 0) {
        None => return Err(StorageError::Corrupt),
        Some(x) => x,
    };
    let mut acc: Vec<Package> = Vec::new();
    let mut pos: usize = p0;
    let mut k: u64 = 0;
    while k < n
        invariant
            k <= n,
            p0 <= pos <= b@.len(),
            parse_u64(b@) == Some((n, b@.skip(p0 as int))),
            parse_packages(b@.skip(p0 as int), n as nat) == match parse_packages(
                b@.skip(pos as int),
                (n - k) as nat,
            ) {
                Some((rs, q)) => Some((views_of(acc@) + rs, q)),
                None => None,
            },
        decreases n - k,
    {
        let (pk, next) = match read_package(b, pos) {
            None => return Err(StorageError::Corrupt),
            Some(x) => x,
        };
        proof {
            let rest = parse_packages(b@.skip(next as int), (n - k - 1) as nat);
            assert(views_of(acc@.push(pk)) =~= views_of(acc@).push(pk@));
            if let Some((rs, q)) = rest {
                assert(views_of(acc@) + (seq![pk@] + rs) =~= views_of(acc@).push(pk@) + rs);
            }
        }
        acc.push(pk);
        pos = next;
        k = k + 1;
    }
    proof {
        assert(views_of(acc@) + Seq::<PackageView>::empty() =~= views_of(acc@));
    }
    if pos != b.len() {
        return Err(StorageError::Corrupt);
    }
    Ok(acc)
}

fn encode_u64(n: u64) -> (r: Vec<u8>)
    ensures
        forall|rest: Seq<u8>| #[trigger] parse_u64(r@ + rest) == Some((n, rest)),
{
    let r = u64_to_le_bytes(n);
    proof {
        lemma_auto_spec_u64_to_from_le_bytes();
        assert forall|rest: Seq<u8>| #[trigger] parse_u64(r@ + rest) == Some((n, rest)) by {
            assert((r@ + rest).take(8) =~= r@);
            assert((r@ + rest).skip(8) =~= rest);
        }
    }
    r
}

fn encode_byte(x: u8) -> (r: Vec<u8>)
    ensures
        forall|rest: Seq<u8>| #[trigger] parse_byte(r@ + rest) == Some((x, rest)),
{
    let r = vec![x];
    proof {
        assert forall|rest: Seq<u8>| #[trigger] parse_byte(r@ + rest) == Some((x, rest)) by {
            assert((r@ + rest).skip(1) =~= rest);
        }
    }
    r
}

fn encode_text(s: &String) -> (r: Vec<u8>)
    ensures
        forall|rest: Seq<u8>| #[trigger] parse_text(r@ + rest) == Some((s@, rest)),
{
    let mut bytes = text_into_bytes(s.clone());
    let ghost text = bytes@;
    let n = bytes.len() as u64;
    let mut r = encode_u64(n);
    let ghost prefix = r@;
    r.append(&mut bytes);
    proof {
        assert forall|rest: Seq<u8>| #[trigger] parse_text(r@ + rest) == Some((s@, rest)) by {
            assert(r@ + rest =~= prefix + (text + rest));
            assert((text + rest).take(n as int) =~= text);
            assert((text + rest).skip(n as int) =~= rest);
        }
    }
    r
}

fn encode_checksum(c: &Option<String>) -> (r: Vec<u8>)
    ensures
        forall|rest: Seq<u8>| #[trigger]
            parse_checksum(r@ + rest) == Some(
                (
                    match *c {
                        Some(t) => Some(t@),
                        None => None,
                    },
                    rest,
                ),
            ),
{
    match c {
        None => encode_byte(0),
        Some(t) => {
            let mut r = encode_byte(1);
            let ghost tag = r@;
            let mut body = encode_text(t);
            let ghost text = body@;
            r.append(&mut body);
            proof {
                assert forall|rest: Seq<u8>| #[trigger]
                    parse_checksum(r@ + rest) == Some((Some(t@), rest)) by {
                    assert(r@ + rest =~= tag + (text + rest));
                    assert(parse_byte(tag + (text + rest)) == Some((1u8, text + rest)));
                    assert(parse_text(text + rest) == Some((t@, rest)));
                }
            }
            r
        },
    }
}

fn encode_install_state(st: InstallState) -> (r: Vec<u8>)
    ensures
        forall|rest: Seq<u8>| #[trigger] parse_byte(r@ + rest) == Some((install_state_byte(st), rest)),
{
    match st {
        InstallState::NotInstalled => encode_byte(0),
        InstallState::Installed => encode_byte(1),
        InstallState::InstallInProgress => encode_byte(2),
    }
}

fn encode_package(pk: &Package) -> (r: Vec<u8>)
    ensures
        forall|rest: Seq<u8>| #[trigger] parse_package(r@ + rest) == Some((pk@, rest)),
{
    let mut r = encode_u64(pk.index as u64);
    let ghost a = r@;
    let mut b1 = encode_text(&pk.name);
    let ghost b = b1@;
    let mut c1 = encode_text(&pk.version);
    let ghost c = c1@;
    let mut d1 = encode_text(&pk.build_hash);
    let ghost d = d1@;
    let mut e1 = encode_text(&pk.download_url);
    let ghost e = e1@;
    let mut f1 = encode_checksum(&pk.checksum);
    let ghost f = f1@;
    let mut g1 = encode_install_state(pk.install_state);
    let ghost g = g1@;
    r.append(&mut b1);
    r.append(&mut c1);
    r.append(&mut d1);
    r.append(&mut e1);
    r.append(&mut f1);
    r.append(&mut g1);
    proof {
        assert forall|rest: Seq<u8>| #[trigger] parse_package(r@ + rest) == Some((pk@, rest)) by {
            let s6 = g + rest;
            let s5 = f + s6;
            let s4 = e + s5;
            let s3 = d + s4;
            let s2 = c + s3;
            let s1 = b + s2;
            assert(r@ + rest =~= a + s1);
            assert(parse_u64(a + s1) == Some((pk.index as u64, s1)));
            assert(parse_text(b + s2) == Some((pk.name@, s2)));
            assert(parse_text(c + s3) == Some((pk.version@, s3)));
            assert(parse_text(d + s4) == Some((pk.build_hash@, s4)));
            assert(parse_text(e + s5) == Some((pk.download_url@, s5)));
            assert(parse_byte(g + rest) == Some((install_state_byte(pk.install_state), rest)));
            assert(install_state_of(install_state_byte(pk.install_state)) == Some(pk.install_state));
        }
    }
    r
}

proof fn lemma_parse_packages_snoc(
    s: Seq<u8>,
    k: nat,
    ps: Seq<PackageView>,
    t: Seq<u8>,
    p: PackageView,
    t2: Seq<u8>,
)
    requires
        parse_packages(s, k) == Some((ps, t)),
        parse_package(t) == Some((p, t2)),
    ensures
        parse_packages(s, k + 1) == Some((ps.push(p), t2)),
    decreases k,
{
    if k > 0 {
        let (q, r) = parse_package(s)->0;
        let (qs, _) = parse_packages(r, (k - 1) as nat)->0;
        lemma_parse_packages_snoc(r, (k - 1) as nat, qs, t, p, t2);
        assert(seq![q] + qs.push(p) =~= (seq![q] + qs).push(p));
    } else {
        assert(parse_packages(t2, 0) == Some((Seq::<PackageView>::empty(), t2)));
        assert(seq![p] + Seq::<PackageView>::empty() =~= Seq::<PackageView>::empty().push(p));
    }
}

/// Encodes a channel database as a file that `decode_database` reads back.
pub fn encode_database(db: &Vec<Package>) -> (r: Vec<u8>)
    ensures
        parse_database(r@) == Some(views_of(db@)),
{
    let mut body: Vec<u8> = Vec::new();
    let mut i: usize = 0;
    while i < db.len()
        invariant
            i <= db@.len(),
            forall|rest: Seq<u8>| #[trigger]
                parse_packages(body@ + rest, i as nat) == Some(
                    (views_of(db@.take(i as int)), rest),
                ),
        decreases db@.len() - i,
    {
        let mut e = encode_package(&db[i]);
        let ghost old_body = body@;
        let ghost enc = e@;
        body.append(&mut e);
        proof {
            assert(views_of(db@.take(i + 1)) =~= views_of(db@.take(i as int)).push(db@[i as int]@));
            assert forall|rest: Seq<u8>| #[trigger]
                parse_packages(body@ + rest, (i + 1) as nat) == Some(
                    (views_of(db@.take(i + 1)), rest),
                ) by {
                assert(body@ + rest =~= old_body + (enc + rest));
                assert(parse_packages(old_body + (enc + rest), i as nat) == Some(
                    (views_of(db@.take(i as int)), enc + rest),
                ));
                assert(parse_package(enc + rest) == Some((db@[i as int]@, rest)));
                lemma_parse_packages_snoc(
                    old_body + (enc + rest),
                    i as nat,
                    views_of(db@.take(i as int)),
                    enc + rest,
                    db@[i as int]@,
                    rest,
                );
            }
        }
        i = i + 1;
    }
    let mut r = encode_u64(db.len() as u64);
    let ghost head = r@;
    let ghost tail = body@;
    r.append(&mut body);
    proof {
        assert(parse_u64(head + tail) == Some((db@.len() as u64, tail)));
        assert(r@ =~= head + tail);
        assert(tail + Seq::<u8>::empty() =~= tail);
        assert(parse_packages(tail + Seq::<u8>::empty(), i as nat) == Some(
            (views_of(db@.take(i as int)), Seq::<u8>::empty()),
        ));
        assert(db@.take(i as int) =~= db@);
    }
    r
}

/// Saving a non-empty listing and reading the file back gives a database
/// against which the same listing has no new package.
pub proof fn lemma_reload_then_reconcile_finds_nothing(
    saved: Seq<u8>,
    fetched: Seq<Package>,
    reloaded: Seq<Package>,
)
    requires
        fetched.len() > 0,
        parse_database(saved) == Some(views_of(fetched)),
        parse_database(saved) == Some(views_of(reloaded)),
    ensures
        update_count_of(reloaded, fetched) == Some(0nat),
{
    assert(views_of(reloaded).len() == reloaded.len());
    assert forall|i: int| 0 <= i < fetched.len() implies has_key(
        reloaded,
        key_of(#[trigger] fetched[i]),
    ) by {
        assert(views_of(reloaded)[i] == views_of(fetched)[i]);
        assert(key_of(reloaded[i]) == key_of(fetched[i]));
    }
    crate::reconcile::lemma_count_new_all_known(reloaded, fetched);
}

} // verus!
