//! Credential store: account secrets sealed with AES-256-GCM under a master
//! key, kept in a JSON file beside the OS keyring.

use crate::config::{default_base_dir, is_base_dir};
use crate::crypto::{
    hex_digit, key_array, random_key, sha256, sha256_digest, aes_gcm_decrypt, aes_gcm_encrypt, aes_gcm_max_plaintext, aes_gcm_open, aes_gcm_seal, hex_decode,
    hex_decoded, hex_encode, hex_encoded, hex_error_text, lemma_hex_encoded_shape, lemma_hex_roundtrip,
    random_nonce, string_from_utf8, utf8_error_text,
};
use crate::error::Error;
use crate::paths::{join_path, path_join, path_with_extension, path_with_file_name, with_extension, with_file_name};
use crate::text::{
    chars_of, find_char, is_ws, lemma_trim_fixed, find_char_index, lemma_find_char, lemma_find_char_at, slice_chars, starts_with,
    starts_with_chars, string_of, str_eq, trim, trim_str,
};
use vstd::prelude::*;
use vstd::utf8::{decode_utf8, encode_utf8, valid_utf8};

verus! {

/// Marks a sealed secret, followed by `<nonce hex>:<ciphertext hex>`.
pub open spec fn enc_prefix() -> Seq<char> {
    "enc:v1:"@
}

/// The stored text of `secret` sealed under `key` with `nonce`.
pub open spec fn sealed_text(secret: Seq<char>, key: Seq<u8>, nonce: Seq<u8>) -> Seq<char> {
    enc_prefix() + hex_encoded(nonce) + ":"@ + hex_encoded(aes_gcm_seal(key, nonce, encode_utf8(secret)))
}

/// A secret too long for AES-GCM.
pub open spec fn too_long_to_seal(secret: Seq<char>) -> bool {
    encode_utf8(secret).len() > aes_gcm_max_plaintext()
}

/// The nonce hex and ciphertext hex of a sealed text, if it has that shape.
pub open spec fn split_sealed(t: Seq<char>) -> Option<(Seq<char>, Seq<char>)> {
    let p = t.skip(enc_prefix().len() as int);
    let i = find_char(p, ':');
    if !starts_with(t, enc_prefix()) || i == -1 {
        None
    } else {
        Some((p.take(i), p.skip(i + 1)))
    }
}

/// What a stored credential text opens to under `key`: text without the
/// marker is taken as it is; otherwise the secret, or the reason it cannot
/// be opened.
pub open spec fn decrypted_secret(t: Seq<char>, key: Seq<u8>) -> Result<Seq<char>, Seq<char>> {
    if !starts_with(t, enc_prefix()) {
        Ok(t)
    } else {
        match split_sealed(t) {
            None => Err("Malformed encrypted credential format"@),
            Some((nh, ch)) => match hex_decoded(nh) {
                None => Err("Invalid nonce hex: "@ + hex_error_text(nh)),
                Some(n) => match hex_decoded(ch) {
                    None => Err("Invalid ciphertext hex: "@ + hex_error_text(ch)),
                    Some(c) => if n.len() != 12 {
                        Err("Invalid nonce length for AES-GCM"@)
                    } else {
                        match aes_gcm_open(key, n, c) {
                            None => Err("Decryption failed: "@ + "aead::Error"@),
                            Some(p) => if valid_utf8(p) {
                                Ok(decode_utf8(p))
                            } else {
                                Err("Corrupted UTF-8 secret: "@ + utf8_error_text(p))
                            },
                        }
                    },
                },
            },
        }
    }
}

/// The pieces of a sealed text are the hex of its nonce and ciphertext.
pub proof fn lemma_sealed_shape(secret: Seq<char>, key: Seq<u8>, nonce: Seq<u8>)
    ensures
        starts_with(sealed_text(secret, key, nonce), enc_prefix()),
        split_sealed(sealed_text(secret, key, nonce)) == Some(
            (hex_encoded(nonce), hex_encoded(aes_gcm_seal(key, nonce, encode_utf8(secret)))),
        ),
        hex_decoded(hex_encoded(nonce)) == Some(nonce),
        hex_decoded(hex_encoded(aes_gcm_seal(key, nonce, encode_utf8(secret)))) == Some(
            aes_gcm_seal(key, nonce, encode_utf8(secret)),
        ),
{
    let a = hex_encoded(nonce);
    let b = hex_encoded(aes_gcm_seal(key, nonce, encode_utf8(secret)));
    let t = sealed_text(secret, key, nonce);
    reveal_strlit(":");
    lemma_hex_encoded_shape(nonce);
    lemma_hex_roundtrip(nonce);
    lemma_hex_roundtrip(aes_gcm_seal(key, nonce, encode_utf8(secret)));
    assert(t.subrange(0, enc_prefix().len() as int) =~= enc_prefix());
    let p = t.skip(enc_prefix().len() as int);
    assert(p =~= a + ":"@ + b);
    assert(p[a.len() as int] == ':');
    assert forall|j: int| 0 <= j < a.len() implies p[j] != ':' by {
        assert(p[j] == a[j]);
        assert(a.contains(a[j]));
    }
    lemma_find_char_at(p, ':', a.len() as int);
    assert(p.take(a.len() as int) =~= a);
    assert(p.skip(a.len() as int + 1) =~= b);
}

/// Seals `secret` under `master_key` with the given nonce.
pub fn encrypt_secret_with_nonce(secret: &str, master_key: &[u8; 32], nonce: &Vec<u8>) -> (r: Result<
    String,
    Error,
>)
    requires
        nonce@.len() == 12,
    ensures
        match r {
            Ok(t) => !too_long_to_seal(secret@) && t@ == sealed_text(secret@, master_key@, nonce@),
            Err(e) => too_long_to_seal(secret@) && (e matches Error::Keyring(m) && m@ == "Encryption error: "@
                + "aead::Error"@),
        },
{
    let bytes = secret.as_bytes();
    assert(bytes@ == encode_utf8(secret@));
    match aes_gcm_encrypt(master_key, nonce, bytes) {
        Err(e) => Err(Error::Keyring(String::from_str("Encryption error: ").concat(e.as_str()))),
        Ok(ct) => {
            let nh = hex_encode(nonce.as_slice());
            let ch = hex_encode(ct.as_slice());
            Ok(String::from_str("enc:v1:").concat(nh.as_str()).concat(":").concat(ch.as_str()))
        },
    }
}

/// Seals `secret` under `master_key` with a fresh random nonce.
pub fn encrypt_secret(secret: &str, master_key: &[u8; 32]) -> (r: Result<String, Error>)
    ensures
        match r {
            Ok(t) => !too_long_to_seal(secret@) && exists|n: Seq<u8>|
                n.len() == 12 && t@ == sealed_text(secret@, master_key@, n),
            Err(e) => too_long_to_seal(secret@) && (e matches Error::Keyring(m) && m@ == "Encryption error: "@
                + "aead::Error"@),
        },
{
    let nonce = random_nonce();
    encrypt_secret_with_nonce(secret, master_key, &nonce)
}

/// Opens a stored credential text. Whatever was sealed under the same key
/// opens to the secret it was sealed from.
pub fn decrypt_secret(encoded: &str, master_key: &[u8; 32]) -> (r: Result<String, Error>)
    ensures
        match r {
            Ok(s) => decrypted_secret(encoded@, master_key@) == Ok::<Seq<char>, Seq<char>>(s@),
            Err(e) => e matches Error::Keyring(m) && decrypted_secret(encoded@, master_key@) == Err::<
                Seq<char>,
                Seq<char>,
            >(m@),
        },
        forall|s: Seq<char>, n: Seq<u8>|
            n.len() == 12 && !too_long_to_seal(s) && encoded@ == #[trigger] sealed_text(s, master_key@, n)
                ==> r is Ok && r->Ok_0@ == s,
{
    broadcast use vstd::utf8::group_utf8_lib;

    proof {
        assert forall|s: Seq<char>, n: Seq<u8>| #[trigger]
            sealed_text(s, master_key@, n) == encoded@ implies split_sealed(encoded@) == Some(
            (hex_encoded(n), hex_encoded(aes_gcm_seal(master_key@, n, encode_utf8(s)))),
        ) && starts_with(encoded@, enc_prefix()) && hex_decoded(hex_encoded(n)) == Some(n) && hex_decoded(
            hex_encoded(aes_gcm_seal(master_key@, n, encode_utf8(s))),
        ) == Some(aes_gcm_seal(master_key@, n, encode_utf8(s))) by {
            lemma_sealed_shape(s, master_key@, n);
        }
    }
    let enc = chars_of(encoded);
    let pre = chars_of("enc:v1:");
    if !starts_with_chars(&enc, &pre) {
        return Ok(String::from_str(encoded));
    }
    let payload = slice_chars(&enc, pre.len(), enc.len());
    assert(payload@ =~= encoded@.skip(enc_prefix().len() as int));
    let i = match find_char_index(&payload, ':') {
        Some(i) => i,
        None => {
            return Err(Error::Keyring(String::from_str("Malformed encrypted credential format")));
        },
    };
    proof {
        lemma_find_char(payload@, ':');
    }
    let nonce_part = slice_chars(&payload, 0, i);
    let ct_part = slice_chars(&payload, i + 1, payload.len());
    assert(nonce_part@ =~= payload@.take(i as int));
    assert(ct_part@ =~= payload@.skip(i + 1));
    let nonce_hex = string_of(&nonce_part);
    let ct_hex = string_of(&ct_part);
    let nonce = match hex_decode(nonce_hex.as_str()) {
        Ok(v) => v,
        Err(e) => {
            return Err(Error::Keyring(String::from_str("Invalid nonce hex: ").concat(e.as_str())));
        },
    };
    let ct = match hex_decode(ct_hex.as_str()) {
        Ok(v) => v,
        Err(e) => {
            return Err(Error::Keyring(String::from_str("Invalid ciphertext hex: ").concat(e.as_str())));
        },
    };
    if nonce.len() != 12 {
        return Err(Error::Keyring(String::from_str("Invalid nonce length for AES-GCM")));
    }
    let plain = match aes_gcm_decrypt(master_key, &nonce, &ct) {
        Ok(p) => p,
        Err(e) => {
            return Err(Error::Keyring(String::from_str("Decryption failed: ").concat(e.as_str())));
        },
    };
    let ghost pv = plain@;
    match string_from_utf8(plain) {
        Ok(s) => Ok(s),
        Err(e) => {
            proof {
                assert forall|s: Seq<char>, n: Seq<u8>|
                    n.len() == 12 && !too_long_to_seal(s) && encoded@ == #[trigger] sealed_text(
                        s,
                        master_key@,
                        n,
                    ) implies false by {
                    assert(pv == encode_utf8(s));
                }
            }
            Err(Error::Keyring(String::from_str("Corrupted UTF-8 secret: ").concat(e.as_str())))
        },
    }
}

/// A credential map as a sequence of (key, value) entries.
pub type Entries = Seq<(Seq<char>, Seq<char>)>;

/// The value stored under `k`; a later entry wins over an earlier one.
pub open spec fn lookup_entry(es: Entries, k: Seq<char>) -> Option<Seq<char>>
    decreases es.len(),
{
    if es.len() == 0 {
        None
    } else if es.last().0 == k {
        Some(es.last().1)
    } else {
        lookup_entry(es.drop_last(), k)
    }
}

/// The entries whose key is not `k`, in their order.
pub open spec fn without_entry(es: Entries, k: Seq<char>) -> Entries
    decreases es.len(),
{
    if es.len() == 0 {
        es
    } else {
        let p = without_entry(es.drop_last(), k);
        if es.last().0 == k {
            p
        } else {
            p.push(es.last())
        }
    }
}

/// The entries with `k` set to `v`.
pub open spec fn with_entry(es: Entries, k: Seq<char>, v: Seq<char>) -> Entries {
    without_entry(es, k).push((k, v))
}

proof fn lemma_without_entry(es: Entries, k: Seq<char>, other: Seq<char>)
    ensures
        lookup_entry(without_entry(es, k), k) is None,
        other != k ==> lookup_entry(without_entry(es, k), other) == lookup_entry(es, other),
    decreases es.len(),
{
    if es.len() > 0 {
        lemma_without_entry(es.drop_last(), k, other);
        let p = without_entry(es.drop_last(), k);
        assert(p.push(es.last()).drop_last() =~= p);
    }
}

/// Removing a key forgets it and keeps every other key's value.
pub proof fn law_remove_entry(es: Entries, k: Seq<char>, other: Seq<char>)
    ensures
        lookup_entry(without_entry(es, k), k) is None,
        other != k ==> lookup_entry(without_entry(es, k), other) == lookup_entry(es, other),
{
    lemma_without_entry(es, k, other);
}

/// Setting a key gives it the new value and keeps every other key's value.
pub proof fn law_set_entry(es: Entries, k: Seq<char>, v: Seq<char>, other: Seq<char>)
    ensures
        lookup_entry(with_entry(es, k, v), k) == Some(v),
        other != k ==> lookup_entry(with_entry(es, k, v), other) == lookup_entry(es, other),
{
    lemma_without_entry(es, k, other);
    let w = without_entry(es, k);
    assert(w.push((k, v)).drop_last() =~= w);
}

/// No key occurs twice.
pub open spec fn unique_keys(es: Entries) -> bool {
    forall|i: int, j: int| 0 <= i < j < es.len() ==> es[i].0 != es[j].0
}

/// Two entry lists give the same value for every key.
pub open spec fn same_lookups(a: Entries, b: Entries) -> bool {
    forall|k: Seq<char>| #[trigger] lookup_entry(a, k) == lookup_entry(b, k)
}

/// JSON bytes read back as entries with unique keys and the lookups of `es`.
pub open spec fn reads_back_as(bytes: Seq<u8>, es: Entries) -> bool {
    json_string_map(bytes) matches Some(p) && unique_keys(p) && same_lookups(p, es)
}

/// Store text that `encode_store` writes for `es` under `key`: the JSON of
/// the entries of `es`, each sealed under `key`, no secret too long to seal.
pub open spec fn store_text_of(bytes: Seq<u8>, es: Entries, key: Seq<u8>) -> bool {
    &&& forall|i: int| 0 <= i < es.len() ==> !too_long_to_seal(#[trigger] es[i].1)
    &&& exists|enc: Entries| #[trigger] sealed_entries(es, enc, key) && reads_back_as(bytes, enc)
}

/// Removing a key keeps the other keys unique and leaves no entry for it.
proof fn lemma_without_entry_unique(es: Entries, k: Seq<char>)
    requires
        unique_keys(es),
    ensures
        unique_keys(without_entry(es, k)),
        forall|i: int| 0 <= i < without_entry(es, k).len() ==> (#[trigger] without_entry(es, k)[i]).0 != k,
        forall|i: int|
            0 <= i < without_entry(es, k).len() ==> exists|j: int| 0 <= j < es.len() && es[j] == #[trigger] without_entry(es, k)[i],
    decreases es.len(),
{
    if es.len() > 0 {
        let p = es.drop_last();
        assert(unique_keys(p)) by {
            assert forall|a: int, b: int| 0 <= a < b < p.len() implies p[a].0 != p[b].0 by {
                assert(p[a] == es[a] && p[b] == es[b]);
            }
        }
        lemma_without_entry_unique(p, k);
        let w = without_entry(p, k);
        if es.last().0 != k {
            let x = es.last();
            let wx = w.push(x);
            assert forall|i: int| 0 <= i < wx.len() implies exists|j: int| 0 <= j < es.len() && es[j] == #[trigger] wx[i] by {
                if i < w.len() {
                    assert(wx[i] == w[i]);
                    let j = choose|j: int| 0 <= j < p.len() && p[j] == w[i];
                    assert(es[j] == p[j]);
                } else {
                    assert(es[es.len() - 1] == wx[i]);
                }
            }
            assert forall|a: int, b: int| 0 <= a < b < wx.len() implies wx[a].0 != wx[b].0 by {
                if b == w.len() {
                    let j = choose|j: int| 0 <= j < p.len() && p[j] == w[a];
                    assert(wx[a] == w[a]);
                    assert(es[j] == p[j]);
                    assert(j < es.len() - 1);
                } else {
                    assert(wx[a] == w[a] && wx[b] == w[b]);
                }
            }
            assert forall|i: int| 0 <= i < wx.len() implies (#[trigger] wx[i]).0 != k by {
                if i < w.len() {
                    assert(wx[i] == w[i]);
                }
            }
        } else {
            assert forall|i: int| 0 <= i < w.len() implies exists|j: int| 0 <= j < es.len() && es[j] == #[trigger] w[i] by {
                let j = choose|j: int| 0 <= j < p.len() && p[j] == w[i];
                assert(es[j] == p[j]);
            }
        }
    }
}

/// The store as read back after setting a key: when the entries read back
/// from the file have the lookups of `with_entry(es, k, v)` (what
/// `decode_store` ensures of text `encode_store` wrote for them), the key
/// reads as `v` and every other key as before.
pub proof fn law_store_set_reads_back(es: Entries, k: Seq<char>, v: Seq<char>, read: Entries, other: Seq<char>)
    requires
        same_lookups(read, with_entry(es, k, v)),
    ensures
        lookup_entry(read, k) == Some(v),
        other != k ==> lookup_entry(read, other) == lookup_entry(es, other),
{
    law_set_entry(es, k, v, other);
    assert(lookup_entry(read, k) == lookup_entry(with_entry(es, k, v), k));
    assert(lookup_entry(read, other) == lookup_entry(with_entry(es, k, v), other));
}

/// The store as read back after removing a key: the key is gone and every
/// other key reads as before.
pub proof fn law_store_delete_reads_back(es: Entries, k: Seq<char>, read: Entries, other: Seq<char>)
    requires
        same_lookups(read, without_entry(es, k)),
    ensures
        lookup_entry(read, k) is None,
        other != k ==> lookup_entry(read, other) == lookup_entry(es, other),
{
    law_remove_entry(es, k, other);
    assert(lookup_entry(read, k) == lookup_entry(without_entry(es, k), k));
    assert(lookup_entry(read, other) == lookup_entry(without_entry(es, k), other));
}

proof fn lemma_lookup_push(es: Entries, x: (Seq<char>, Seq<char>), k: Seq<char>)
    ensures
        lookup_entry(es.push(x), k) == if x.0 == k { Some(x.1) } else { lookup_entry(es, k) },
{
    assert(es.push(x).drop_last() =~= es);
}

/// A key that is found has an entry, and one that is not has none.
proof fn lemma_lookup_found(es: Entries, k: Seq<char>)
    ensures
        lookup_entry(es, k) matches Some(v) ==> exists|i: int| 0 <= i < es.len() && #[trigger] es[i] == (k, v),
        lookup_entry(es, k) is None ==> forall|i: int| 0 <= i < es.len() ==> (#[trigger] es[i]).0 != k,
    decreases es.len(),
{
    if es.len() > 0 {
        lemma_lookup_found(es.drop_last(), k);
        let p = es.drop_last();
        if es.last().0 == k {
            assert(es[es.len() - 1] == (k, es.last().1));
        } else {
            if let Some(v) = lookup_entry(p, k) {
                let i = choose|i: int| 0 <= i < p.len() && #[trigger] p[i] == (k, v);
                assert(es[i] == p[i]);
            } else {
                assert forall|i: int| 0 <= i < es.len() implies (#[trigger] es[i]).0 != k by {
                    if i < p.len() {
                        assert(es[i] == p[i]);
                    }
                }
            }
        }
    }
}

/// A sealed copy finds, for each key, the sealed text of the value found in
/// the plain entries: the value's position and the nonce are returned.
proof fn lemma_lookup_sealed(plain: Entries, enc: Entries, key: Seq<u8>, k: Seq<char>) -> (w: (int, Seq<u8>))
    requires
        sealed_entries(plain, enc, key),
    ensures
        lookup_entry(plain, k) is None ==> lookup_entry(enc, k) is None,
        lookup_entry(plain, k) matches Some(v) ==> 0 <= w.0 < plain.len() && plain[w.0].1 == v && w.1.len() == 12
            && lookup_entry(enc, k) == Some(sealed_text(v, key, w.1)),
    decreases plain.len(),
{
    if plain.len() == 0 {
        (0, Seq::empty())
    } else {
        let pp = plain.drop_last();
        let ee = enc.drop_last();
        assert(sealed_entries(pp, ee, key)) by {
            assert forall|i: int| 0 <= i < pp.len() implies (#[trigger] ee[i]).0 == pp[i].0 && exists|n: Seq<u8>|
                n.len() == 12 && ee[i].1 == sealed_text(pp[i].1, key, n) by {
                assert(ee[i] == enc[i]);
                assert(pp[i] == plain[i]);
            }
        }
        let w0 = lemma_lookup_sealed(pp, ee, key, k);
        let last = plain.len() - 1;
        assert(enc[last].0 == plain[last].0);
        assert(enc.last() == enc[last]);
        assert(plain.last() == plain[last]);
        if plain[last].0 == k {
            let n = choose|n: Seq<u8>| n.len() == 12 && enc[last].1 == sealed_text(plain[last].1, key, n);
            assert(lookup_entry(plain, k) == Some(plain[last].1));
            assert(lookup_entry(enc, k) == Some(sealed_text(plain[last].1, key, n)));
            (last, n)
        } else {
            assert(lookup_entry(plain, k) == lookup_entry(pp, k));
            assert(lookup_entry(enc, k) == lookup_entry(ee, k));
            if lookup_entry(pp, k) is Some {
                assert(plain[w0.0] == pp[w0.0]);
            }
            w0
        }
    }
}

/// Decoding keeps at most one entry per key of the raw entries, and what it
/// finds for a key is what the raw value for that key opens to.
proof fn lemma_lookup_decoded(raw: Entries, key: Seq<u8>, k: Seq<char>)
    requires
        unique_keys(raw),
    ensures
        unique_keys(decoded_entries(raw, key)),
        forall|x: Seq<char>| lookup_entry(raw, x) is None ==> #[trigger] lookup_entry(decoded_entries(raw, key), x) is None,
        lookup_entry(decoded_entries(raw, key), k) == match lookup_entry(raw, k) {
            None => None,
            Some(v) => if !starts_with(v, enc_prefix()) {
                Some(v)
            } else {
                match decrypted_secret(v, key) {
                    Ok(s) => Some(s),
                    Err(_) => None,
                }
            },
        },
    decreases raw.len(),
{
    if raw.len() > 0 {
        let p = raw.drop_last();
        assert(unique_keys(p)) by {
            assert forall|i: int, j: int| 0 <= i < j < p.len() implies p[i].0 != p[j].0 by {
                assert(p[i] == raw[i] && p[j] == raw[j]);
            }
        }
        lemma_lookup_decoded(p, key, k);
        let d = decoded_entries(p, key);
        let (lk, lv) = raw.last();
        // the last key does not occur before it
        assert(lookup_entry(p, lk) is None) by {
            lemma_lookup_found(p, lk);
            if let Some(v) = lookup_entry(p, lk) {
                let i = choose|i: int| 0 <= i < p.len() && #[trigger] p[i] == (lk, v);
                assert(raw[i].0 == raw[raw.len() - 1].0);
            }
        }
        assert(lookup_entry(d, lk) is None);
        lemma_lookup_found(d, lk);
        assert forall|x: Seq<char>| lookup_entry(raw, x) is None implies #[trigger] lookup_entry(
            decoded_entries(raw, key),
            x,
        ) is None by {
            lemma_lookup_push(p, raw.last(), x);
            lemma_lookup_decoded(p, key, x);
            if !starts_with(lv, enc_prefix()) {
                lemma_lookup_push(d, (lk, lv), x);
            } else if let Ok(sv) = decrypted_secret(lv, key) {
                lemma_lookup_push(d, (lk, sv), x);
            }
        }
        lemma_lookup_push(p, raw.last(), k);
        if !starts_with(lv, enc_prefix()) {
            lemma_lookup_push(d, (lk, lv), k);
            assert forall|i: int, j: int| 0 <= i < j < d.push((lk, lv)).len() implies d.push((lk, lv))[i].0
                != d.push((lk, lv))[j].0 by {
                if j == d.len() {
                    assert(d.push((lk, lv))[i] == d[i]);
                } else {
                    assert(d.push((lk, lv))[i] == d[i] && d.push((lk, lv))[j] == d[j]);
                }
            }
        } else if let Ok(sv) = decrypted_secret(lv, key) {
            lemma_lookup_push(d, (lk, sv), k);
            assert forall|i: int, j: int| 0 <= i < j < d.push((lk, sv)).len() implies d.push((lk, sv))[i].0
                != d.push((lk, sv))[j].0 by {
                if j == d.len() {
                    assert(d.push((lk, sv))[i] == d[i]);
                } else {
                    assert(d.push((lk, sv))[i] == d[i] && d.push((lk, sv))[j] == d[j]);
                }
            }
        }
    }
}

/// Key under which an account's secret is stored.
pub open spec fn account_key(account_id: Seq<char>) -> Seq<char> {
    "account:"@ + account_id
}

/// Builds the key under which an account's secret is stored.
pub fn account_key_of(account_id: &str) -> (r: String)
    ensures
        r@ == account_key(account_id@),
{
    String::from_str("account:").concat(account_id)
}

/// The value stored under `key`.
fn lookup_in(entries: &Vec<(String, String)>, key: &str) -> (r: Option<String>)
    ensures
        r.deep_view() == lookup_entry(entries.deep_view(), key@),
{
    let n = entries.len();
    let mut i: usize = n;
    assert(entries.deep_view().take(n as int) =~= entries.deep_view());
    while i > 0
        invariant
            i <= n,
            n == entries.len(),
            lookup_entry(entries.deep_view(), key@) == lookup_entry(entries.deep_view().take(i as int), key@),
        decreases i,
    {
        let ghost t = entries.deep_view().take(i as int);
        assert(t.drop_last() =~= entries.deep_view().take(i - 1));
        if str_eq(entries[i - 1].0.as_str(), key) {
            return Some(entries[i - 1].1.clone());
        }
        i -= 1;
    }
    None
}

/// Removes every entry under `key`.
fn remove_entry(entries: &mut Vec<(String, String)>, key: &str)
    ensures
        final(entries).deep_view() == without_entry(old(entries).deep_view(), key@),
{
    let mut kept: Vec<(String, String)> = Vec::new();
    let n = entries.len();
    let mut i: usize = 0;
    while i < n
        invariant
            n == entries.len(),
            i <= n,
            kept.deep_view() == without_entry(entries.deep_view().take(i as int), key@),
        decreases n - i,
    {
        assert(entries.deep_view().take(i + 1).drop_last() =~= entries.deep_view().take(i as int));
        let e = &entries[i];
        if !str_eq(e.0.as_str(), key) {
            let item = (e.0.clone(), e.1.clone());
            kept.push(item);
            assert(kept.deep_view() =~= without_entry(entries.deep_view().take(i as int), key@).push(
                entries.deep_view()[i as int],
            ));
        }
        i += 1;
    }
    assert(entries.deep_view().take(n as int) =~= entries.deep_view());
    *entries = kept;
}

/// The entries a stored JSON map of credential texts opens to: text without
/// the marker is kept as it is, sealed text is opened, and what cannot be
/// opened is left out.
pub open spec fn decoded_entries(raw: Entries, key: Seq<u8>) -> Entries
    decreases raw.len(),
{
    if raw.len() == 0 {
        raw
    } else {
        let p = decoded_entries(raw.drop_last(), key);
        let (k, v) = raw.last();
        if !starts_with(v, enc_prefix()) {
            p.push((k, v))
        } else {
            match decrypted_secret(v, key) {
                Ok(s) => p.push((k, s)),
                Err(_) => p,
            }
        }
    }
}

/// Some stored value is not sealed.
pub open spec fn has_plaintext(raw: Entries) -> bool {
    exists|i: int| 0 <= i < raw.len() && !starts_with(#[trigger] raw[i].1, enc_prefix())
}

/// `enc` holds the entries of `plain`, each value sealed under `key` with
/// some nonce.
pub open spec fn sealed_entries(plain: Entries, enc: Entries, key: Seq<u8>) -> bool {
    &&& enc.len() == plain.len()
    &&& forall|i: int|
        0 <= i < plain.len() ==> (#[trigger] enc[i]).0 == plain[i].0 && exists|n: Seq<u8>|
            n.len() == 12 && enc[i].1 == sealed_text(plain[i].1, key, n)
}

/// Name for what `serde_json::from_slice` reads from bytes as a JSON object
/// of strings, entries in key order.
pub uninterp spec fn json_string_map(bytes: Seq<u8>) -> Option<Entries>;

/// Name for what `serde_json::to_vec_pretty` writes for a map of strings:
/// the bytes, or the error's message.
pub uninterp spec fn json_pretty_string_map(entries: Entries) -> Result<Seq<u8>, Seq<char>>;

/// Calls `serde_json::from_slice` for a `BTreeMap<String, String>`; the
/// entries (or the failure) are named `json_string_map`. A map holds each
/// key once, so the entries have unique keys.
#[verifier::external_body]
fn parse_string_map(bytes: &[u8]) -> (r: Option<Vec<(String, String)>>)
    ensures
        r.deep_view() == json_string_map(bytes@),
        r matches Some(m) ==> unique_keys(m.deep_view()),
{
    serde_json::from_slice::<std::collections::BTreeMap<String, String>>(bytes).ok().map(|m| m.into_iter().collect())
}

/// Calls `serde_json::to_vec_pretty` on the entries as a map of strings; the
/// outcome is named `json_pretty_string_map`. serde_json writes every key and
/// value as an escaped JSON string and reads them back unescaped, so the
/// bytes of entries with unique keys read back (`serde_json::from_slice`) as
/// a map with the same value for every key. (Which value `BTreeMap` keeps for
/// a repeated key is not documented, hence the guard.)
#[verifier::external_body]
fn pretty_string_map(entries: &Vec<(String, String)>) -> (r: Result<Vec<u8>, String>)
    ensures
        match r {
            Ok(b) => json_pretty_string_map(entries.deep_view()) == Ok::<Seq<u8>, Seq<char>>(b@),
            Err(e) => json_pretty_string_map(entries.deep_view()) == Err::<Seq<u8>, Seq<char>>(e@),
        },
        unique_keys(entries.deep_view()) ==> (r matches Ok(b) ==> reads_back_as(b@, entries.deep_view())),
{
    let m: std::collections::BTreeMap<&str, &str> = entries.iter().map(|e| (e.0.as_str(), e.1.as_str())).collect();
    serde_json::to_vec_pretty(&m).map_err(|e| e.to_string())
}

/// Master key from a passphrase: the SHA-256 of the trimmed text, unless it
/// is blank.
pub open spec fn key_from_passphrase(p: Seq<char>) -> Option<Seq<u8>> {
    if trim(p).len() > 0 {
        Some(sha256(encode_utf8(trim(p))))
    } else {
        None
    }
}

/// Master key from stored hex text: the trimmed text must be the hex of 32
/// bytes.
pub open spec fn key_from_hex(t: Seq<char>) -> Option<Seq<u8>> {
    match hex_decoded(trim(t)) {
        Some(b) => if b.len() == 32 {
            Some(b)
        } else {
            None
        },
        None => None,
    }
}

/// Hex text contains no whitespace.
proof fn lemma_hex_no_ws(b: Seq<u8>)
    ensures
        forall|i: int| 0 <= i < hex_encoded(b).len() ==> !is_ws(#[trigger] hex_encoded(b)[i]),
    decreases b.len(),
{
    if b.len() > 0 {
        lemma_hex_no_ws(b.drop_last());
        lemma_hex_encoded_shape(b.drop_last());
        let p = hex_encoded(b.drop_last());
        let hi = b.last() / 16;
        let lo = b.last() % 16;
        let t = seq![hex_digit(hi), hex_digit(lo)];
        assert(!is_ws(hex_digit(hi)));
        assert(!is_ws(hex_digit(lo)));
        assert forall|i: int| 0 <= i < (p + t).len() implies !is_ws(#[trigger] (p + t)[i]) by {
            if i < p.len() {
                assert(p[i] == (p + t)[i]);
            } else {
                assert((p + t)[i] == t[i - p.len()]);
            }
        }
    }
}

/// A new random master key and the hex text it is saved as; reading the
/// text back gives the key.
pub fn generate_master_key() -> (r: ([u8; 32], String))
    ensures
        r.1@ == hex_encoded(r.0@),
        key_from_hex(r.1@) == Some(r.0@),
{
    let k = random_key();
    let t = encode_master_key(&k);
    (k, t)
}

/// The hex text a master key is saved as, in the key file and the OS
/// keyring; reading it back gives the same key.
pub fn encode_master_key(key: &[u8; 32]) -> (r: String)
    ensures
        r@ == hex_encoded(key@),
        key_from_hex(r@) == Some(key@),
{
    let r = hex_encode(key.as_slice());
    proof {
        lemma_hex_roundtrip(key@);
        lemma_hex_encoded_shape(key@);
        lemma_hex_no_ws(key@);
        let h = hex_encoded(key@);
        assert(h.len() == 64);
        assert(!is_ws(h[0]));
        assert(!is_ws(h[h.len() - 1]));
        lemma_trim_fixed(h);
    }
    r
}

/// The master key the sources give, in order of precedence: the passphrase
/// from the environment, the hex saved in the OS keyring, the hex of the key
/// file.
pub open spec fn master_key_from(
    env: Option<Seq<char>>,
    keyring: Option<Seq<char>>,
    file: Option<Seq<char>>,
) -> Option<Seq<u8>> {
    let from_env = match env {
        Some(p) => key_from_passphrase(p),
        None => None,
    };
    let from_keyring = match keyring {
        Some(t) => key_from_hex(t),
        None => None,
    };
    let from_file = match file {
        Some(t) => key_from_hex(t),
        None => None,
    };
    if from_env is Some {
        from_env
    } else if from_keyring is Some {
        from_keyring
    } else {
        from_file
    }
}

fn passphrase_key(p: &str) -> (r: Option<[u8; 32]>)
    ensures
        match r {
            Some(k) => key_from_passphrase(p@) == Some(k@),
            None => key_from_passphrase(p@) is None,
        },
{
    let t = trim_str(p);
    if t.as_str().is_empty() {
        return None;
    }
    let d = sha256_digest(t.as_str().as_bytes());
    Some(key_array(&d))
}

fn hex_key(t: &str) -> (r: Option<[u8; 32]>)
    ensures
        match r {
            Some(k) => key_from_hex(t@) == Some(k@),
            None => key_from_hex(t@) is None,
        },
{
    let tt = trim_str(t);
    match hex_decode(tt.as_str()) {
        Ok(b) => if b.len() == 32 {
            Some(key_array(&b))
        } else {
            None
        },
        Err(_) => None,
    }
}

/// Where the credentials are kept: the sealed JSON store and the key file.
pub struct CredentialStore {
    fallback_path: String,
    key_path: String,
}

impl CredentialStore {
    /// Path of the JSON store.
    pub closed spec fn store_file(&self) -> Seq<char> {
        self.fallback_path@
    }

    /// Path of the master key file.
    pub closed spec fn key_file(&self) -> Seq<char> {
        self.key_path@
    }

    /// The store in the base directory: `.credentials_store.json` beside
    /// `.credentials_key`.
    pub fn new() -> (r: Self)
        ensures
            exists|b: Seq<char>|
                is_base_dir(b) && r.store_file() == path_join(b, ".credentials_store.json"@) && r.key_file()
                    == path_join(b, ".credentials_key"@),
    {
        let base_dir = default_base_dir();
        let fallback_path = join_path(base_dir.as_str(), ".credentials_store.json");
        let key_path = join_path(base_dir.as_str(), ".credentials_key");
        CredentialStore { fallback_path, key_path }
    }

    /// A store at `fallback_path`, with the key file beside it under the
    /// `key` extension.
    pub fn with_fallback_path(fallback_path: String) -> (r: Self)
        ensures
            r.store_file() == fallback_path@,
            r.key_file() == path_with_extension(fallback_path@, "key"@),
    {
        proof {
            reveal_strlit("key");
        }
        let key_path = with_extension(fallback_path.as_str(), "key");
        CredentialStore { fallback_path, key_path }
    }

    /// A store with both paths given.
    pub fn with_paths(fallback_path: String, key_path: String) -> (r: Self)
        ensures
            r.store_file() == fallback_path@,
            r.key_file() == key_path@,
    {
        CredentialStore { fallback_path, key_path }
    }

    /// Path of the JSON store.
    pub fn fallback_path(&self) -> (r: String)
        ensures
            r@ == self.store_file(),
    {
        self.fallback_path.clone()
    }

    /// Path of the master key file.
    pub fn key_path(&self) -> (r: String)
        ensures
            r@ == self.key_file(),
    {
        self.key_path.clone()
    }

    /// Where an older release kept the store: `credentials_store.json`
    /// without the leading dot, in the same directory.
    pub fn undotted_path(&self) -> (r: String)
        ensures
            r@ == path_with_file_name(self.store_file(), "credentials_store.json"@),
    {
        with_file_name(self.fallback_path.as_str(), "credentials_store.json")
    }

    /// The file to read the store from: the store itself when it exists,
    /// else the older undotted file when that exists, else the store.
    pub fn get_active_store_path(&self, fallback_exists: bool, undotted_exists: bool) -> (r: String)
        ensures
            r@ == (if !fallback_exists && undotted_exists {
                path_with_file_name(self.store_file(), "credentials_store.json"@)
            } else {
                self.store_file()
            }),
    {
        if fallback_exists {
            return self.fallback_path.clone();
        }
        if undotted_exists {
            return self.undotted_path();
        }
        self.fallback_path.clone()
    }

    /// Opens the stored JSON map: the entries it holds, and whether it must
    /// be written back sealed (it held plain text, or was read from the
    /// older undotted file). Bytes that are not a JSON map of strings give
    /// an empty map.
    pub fn decode_store(&self, data: &[u8], master_key: &[u8; 32], from_undotted: bool) -> (r: (
        Vec<(String, String)>,
        bool,
    ))
        ensures
            match json_string_map(data@) {
                None => r.0@.len() == 0 && !r.1,
                Some(raw) => r.0.deep_view() == decoded_entries(raw, master_key@) && r.1 == (has_plaintext(raw)
                    || from_undotted) && unique_keys(r.0.deep_view()),
            },
            forall|es: Entries| #[trigger] store_text_of(data@, es, master_key@) ==> same_lookups(r.0.deep_view(), es),
    {
        let raw = match parse_string_map(data) {
            Some(m) => m,
            None => {
                return (Vec::new(), false);
            },
        };
        let pre = chars_of("enc:v1:");
        let mut out: Vec<(String, String)> = Vec::new();
        let mut had_plaintext = false;
        let n = raw.len();
        let mut i: usize = 0;
        while i < n
            invariant
                n == raw.len(),
                i <= n,
                pre@ == enc_prefix(),
                out.deep_view() == decoded_entries(raw.deep_view().take(i as int), master_key@),
                had_plaintext == has_plaintext(raw.deep_view().take(i as int)),
                forall|j: int, sv: Seq<char>, nn: Seq<u8>|
                    #![trigger raw.deep_view()[j], sealed_text(sv, master_key@, nn)]
                    0 <= j < i && nn.len() == 12 && !too_long_to_seal(sv) && raw.deep_view()[j].1 == sealed_text(
                        sv,
                        master_key@,
                        nn,
                    ) ==> decrypted_secret(raw.deep_view()[j].1, master_key@) == Ok::<Seq<char>, Seq<char>>(sv),
            decreases n - i,
        {
            let ghost before = raw.deep_view().take(i as int);
            let ghost after = raw.deep_view().take(i + 1);
            assert(after.drop_last() =~= before);
            let e = &raw[i];
            let v = chars_of(e.1.as_str());
            assert(raw.deep_view()[i as int] == (e.0@, e.1@));
            if !starts_with_chars(&v, &pre) {
                proof {
                    assert forall|sv: Seq<char>, nn: Seq<u8>|
                        nn.len() == 12 && !too_long_to_seal(sv) implies raw.deep_view()[i as int].1 != sealed_text(
                        sv,
                        master_key@,
                        nn,
                    ) by {
                        lemma_sealed_shape(sv, master_key@, nn);
                    }
                }
                had_plaintext = true;
                let item = (e.0.clone(), e.1.clone());
                out.push(item);
                assert(out.deep_view() =~= decoded_entries(before, master_key@).push(after.last()));
                assert(has_plaintext(after)) by {
                    assert(after[i as int] == after.last());
                    assert(!starts_with(after[i as int].1, enc_prefix()));
                }
            } else {
                proof {
                    if has_plaintext(after) {
                        let j = choose|j: int| 0 <= j < after.len() && !starts_with(#[trigger] after[j].1, enc_prefix());
                        assert(j < i);
                        assert(before[j] == after[j]);
                    }
                    if has_plaintext(before) {
                        let j = choose|j: int| 0 <= j < before.len() && !starts_with(#[trigger] before[j].1, enc_prefix());
                        assert(before[j] == after[j]);
                    }
                }
                match decrypt_secret(e.1.as_str(), master_key) {
                    Ok(s) => {
                        let item = (e.0.clone(), s);
                        out.push(item);
                        assert(out.deep_view() =~= decoded_entries(before, master_key@).push(
                            (after.last().0, item.1@),
                        ));
                    },
                    Err(_) => {},
                }
            }
            proof {
                if had_plaintext && !has_plaintext(after) {
                    let j = choose|j: int| 0 <= j < before.len() && !starts_with(#[trigger] before[j].1, enc_prefix());
                    assert(before[j] == after[j]);
                }
            }
            i += 1;
        }
        assert(raw.deep_view().take(n as int) =~= raw.deep_view());
        proof {
            let p = raw.deep_view();
            lemma_lookup_decoded(p, master_key@, Seq::empty());
            assert forall|es: Entries| #[trigger] store_text_of(data@, es, master_key@) implies same_lookups(
                out.deep_view(),
                es,
            ) by {
                let enc = choose|enc: Entries| #[trigger] sealed_entries(es, enc, master_key@) && reads_back_as(data@, enc);
                assert forall|k: Seq<char>| #[trigger] lookup_entry(out.deep_view(), k) == lookup_entry(es, k) by {
                    lemma_lookup_decoded(p, master_key@, k);
                    assert(lookup_entry(p, k) == lookup_entry(enc, k));
                    let w = lemma_lookup_sealed(es, enc, master_key@, k);
                    if let Some(v) = lookup_entry(es, k) {
                        let sealed = sealed_text(v, master_key@, w.1);
                        assert(!too_long_to_seal(es[w.0].1));
                        lemma_sealed_shape(v, master_key@, w.1);
                        lemma_lookup_found(p, k);
                        let j = choose|j: int| 0 <= j < p.len() && #[trigger] p[j] == (k, sealed);
                        assert(p[j].1 == sealed_text(v, master_key@, w.1));
                    }
                }
            }
        }
        (out, had_plaintext || from_undotted)
    }

    /// Seals every value under `master_key` and writes the map as pretty
    /// JSON.
    pub fn encode_store(&self, entries: &Vec<(String, String)>, master_key: &[u8; 32]) -> (r: Result<
        Vec<u8>,
        Error,
    >)
        ensures
            match r {
                Ok(b) => exists|enc: Entries|
                    sealed_entries(entries.deep_view(), enc, master_key@) && json_pretty_string_map(enc) == Ok::<
                        Seq<u8>,
                        Seq<char>,
                    >(b@),
                Err(Error::Keyring(m)) => m@ == "Encryption error: "@ + "aead::Error"@ && exists|i: int|
                    0 <= i < entries@.len() && too_long_to_seal(#[trigger] entries@[i].1@),
                Err(Error::Serialization(m)) => exists|enc: Entries|
                    sealed_entries(entries.deep_view(), enc, master_key@) && json_pretty_string_map(enc) == Err::<
                        Seq<u8>,
                        Seq<char>,
                    >(m@),
                Err(_) => false,
            },
            (forall|i: int| 0 <= i < entries@.len() ==> !too_long_to_seal(#[trigger] entries@[i].1@)) ==> !(r matches Err(
                Error::Keyring(_),
            )),
            unique_keys(entries.deep_view()) ==> (r matches Ok(b) ==> store_text_of(b@, entries.deep_view(), master_key@)),
    {
        let mut enc: Vec<(String, String)> = Vec::new();
        let n = entries.len();
        let mut i: usize = 0;
        while i < n
            invariant
                n == entries.len(),
                i <= n,
                sealed_entries(entries.deep_view().take(i as int), enc.deep_view(), master_key@),
                forall|j: int| 0 <= j < i ==> !too_long_to_seal(#[trigger] entries@[j].1@),
            decreases n - i,
        {
            let e = &entries[i];
            let sealed = match encrypt_secret(e.1.as_str(), master_key) {
                Ok(t) => t,
                Err(err) => {
                    return Err(err);
                },
            };
            let item = (e.0.clone(), sealed);
            let ghost pv = entries.deep_view().take(i + 1);
            let ghost ev = enc.deep_view();
            enc.push(item);
            proof {
                assert(enc.deep_view() =~= ev.push((item.0@, item.1@)));
                assert forall|j: int| 0 <= j < pv.len() implies (#[trigger] enc.deep_view()[j]).0 == pv[j].0
                    && exists|nn: Seq<u8>| nn.len() == 12 && enc.deep_view()[j].1 == sealed_text(pv[j].1, master_key@, nn) by {
                    if j < i {
                        assert(pv[j] == entries.deep_view().take(i as int)[j]);
                        assert(enc.deep_view()[j] == ev[j]);
                    }
                }
            }
            i += 1;
        }
        assert(entries.deep_view().take(n as int) =~= entries.deep_view());
        proof {
            let es = entries.deep_view();
            let ev = enc.deep_view();
            if unique_keys(es) {
                assert forall|a: int, b: int| 0 <= a < b < ev.len() implies ev[a].0 != ev[b].0 by {
                    assert(ev[a].0 == es[a].0 && ev[b].0 == es[b].0);
                }
            }
            assert forall|j: int| 0 <= j < es.len() implies !too_long_to_seal(#[trigger] es[j].1) by {
                assert(es[j].1 == entries@[j].1@);
            }
        }
        match pretty_string_map(&enc) {
            Ok(b) => Ok(b),
            Err(m) => Err(Error::Serialization(m)),
        }
    }

    /// Sets an account's secret in the opened map.
    pub fn set_password(&self, entries: &mut Vec<(String, String)>, account_id: &str, secret: &str)
        ensures
            final(entries).deep_view() == with_entry(old(entries).deep_view(), account_key(account_id@), secret@),
            unique_keys(old(entries).deep_view()) ==> unique_keys(final(entries).deep_view()),
    {
        let key = account_key_of(account_id);
        remove_entry(entries, key.as_str());
        let ghost w = entries.deep_view();
        let item = (key, String::from_str(secret));
        let ghost before = *entries;
        entries.push(item);
        proof {
            crate::text::lemma_push_deep_view(before, *entries, item);
            if unique_keys(old(entries).deep_view()) {
                lemma_without_entry_unique(old(entries).deep_view(), account_key(account_id@));
                let f = entries.deep_view();
                assert forall|a: int, b: int| 0 <= a < b < f.len() implies f[a].0 != f[b].0 by {
                    if b == w.len() {
                        assert(f[a] == w[a]);
                    } else {
                        assert(f[a] == w[a] && f[b] == w[b]);
                    }
                }
            }
        }
    }

    /// An account's secret: the one the OS keyring returned, if any, else
    /// the one in the opened map.
    pub fn get_password(&self, keyring_secret: Option<String>, entries: &Vec<(String, String)>, account_id: &str) -> (r:
        Result<String, Error>)
        ensures
            match keyring_secret {
                Some(s) => r matches Ok(x) && x@ == s@,
                None => match lookup_entry(entries.deep_view(), account_key(account_id@)) {
                    Some(v) => r matches Ok(x) && x@ == v,
                    None => r matches Err(Error::Keyring(m)) && m@ == "Secret not found for key '"@ + account_key(
                        account_id@,
                    ) + "'"@,
                },
            },
    {
        match keyring_secret {
            Some(s) => Ok(s),
            None => {
                let key = account_key_of(account_id);
                match lookup_in(entries, key.as_str()) {
                    Some(v) => Ok(v),
                    None => Err(
                        Error::Keyring(
                            String::from_str("Secret not found for key '").concat(key.as_str()).concat("'"),
                        ),
                    ),
                }
            },
        }
    }

    /// Removes an account's secret from the opened map.
    pub fn delete_password(&self, entries: &mut Vec<(String, String)>, account_id: &str)
        ensures
            final(entries).deep_view() == without_entry(old(entries).deep_view(), account_key(account_id@)),
            unique_keys(old(entries).deep_view()) ==> unique_keys(final(entries).deep_view()),
    {
        let key = account_key_of(account_id);
        remove_entry(entries, key.as_str());
        proof {
            if unique_keys(old(entries).deep_view()) {
                lemma_without_entry_unique(old(entries).deep_view(), account_key(account_id@));
            }
        }
    }

    /// The master key from its sources, in order of precedence: the
    /// passphrase in the environment, the hex saved in the OS keyring, the
    /// hex of the key file. `None` when none of them gives one, and a new
    /// key must be made.
    pub fn get_master_key(
        &self,
        env_key: Option<String>,
        keyring_hex: Option<String>,
        key_file_text: Option<String>,
    ) -> (r: Option<[u8; 32]>)
        ensures
            match r {
                Some(k) => master_key_from(env_key.deep_view(), keyring_hex.deep_view(), key_file_text.deep_view())
                    == Some(k@),
                None => master_key_from(env_key.deep_view(), keyring_hex.deep_view(), key_file_text.deep_view()) is None,
            },
    {
        if let Some(p) = &env_key {
            if let Some(k) = passphrase_key(p.as_str()) {
                return Some(k);
            }
        }
        if let Some(t) = &keyring_hex {
            if let Some(k) = hex_key(t.as_str()) {
                return Some(k);
            }
        }
        if let Some(t) = &key_file_text {
            return hex_key(t.as_str());
        }
        None
    }

    /// The key used when no key could be stored: the SHA-256 of a fixed
    /// seed followed by the key file's path.
    pub fn fallback_seed_key(&self) -> (r: [u8; 32])
        ensures
            r@ == sha256(encode_utf8("mailbackup:fallback:seed:"@ + self.key_file())),
    {
        let seed = String::from_str("mailbackup:fallback:seed:").concat(self.key_path.as_str());
        let d = sha256_digest(seed.as_str().as_bytes());
        key_array(&d)
    }
}

} // verus!
