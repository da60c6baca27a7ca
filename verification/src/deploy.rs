//! Deploys: the message that carries one, what of it is signed, and the node's reply to it.

use crate::api::F1r3flyApi;
use crate::crypto::{
    blake2b_256, blake2b_256_hash, der_signature, ecdsa_signature, is_private_key, is_signature,
    is_uncompressed_point, lemma_der_signature_length, public_key, sign_prehash, to_der, uncompressed_point,
};
use crate::error::{outcome, ApiError, ErrorView};
use crate::hexadecimal::{hex_chars, hex_decoded, is_hex_digit, lemma_hex_round_trip, HexError};
use crate::service::Reply;
use crate::text::{
    after_prefix, is_white_space, lemma_single_line, lemma_trimmed_end_is_trimmed,
    lemma_trimmed_end_of_concatenation, lemma_trimmed_start_is_a_suffix, lemma_trimmed_twice,
    lemma_trims_commute, lines, lines_from, lines_of, strip_prefix, trim, trimmed, trimmed_end, trimmed_start,
};
use crate::wire::{
    as_unsigned, begins_above, lemma_bytes_are_self_delimiting, lemma_fields_begin_above,
    lemma_int64_is_self_delimiting, lemma_string_is_self_delimiting, lemma_utf8_determines_the_text,
    set_bytes, set_int64,
    set_string, varint, write_bytes, write_int64, write_string,
};
use vstd::prelude::*;
use vstd::utf8::encode_utf8;

verus! {

/// The message that carries a deploy.
#[derive(Debug)]
pub struct DeployData {
    /// The public key of the deployer.
    pub deployer: Vec<u8>,
    /// The code.
    pub term: String,
    /// When the deploy was made, in milliseconds since the epoch.
    pub timestamp: i64,
    /// The signature.
    pub sig: Vec<u8>,
    pub sig_algorithm: String,
    pub phlo_price: i64,
    pub phlo_limit: i64,
    pub valid_after_block_number: i64,
    pub shard_id: String,
    pub language: String,
}

/// The mathematical value of a [`DeployData`].
pub struct DeployView {
    pub deployer: Seq<u8>,
    pub term: Seq<char>,
    pub timestamp: i64,
    pub sig: Seq<u8>,
    pub sig_algorithm: Seq<char>,
    pub phlo_price: i64,
    pub phlo_limit: i64,
    pub valid_after_block_number: i64,
    pub shard_id: Seq<char>,
    pub language: Seq<char>,
}

impl View for DeployData {
    type V = DeployView;

    open spec fn view(&self) -> DeployView {
        DeployView {
            deployer: self.deployer@,
            term: self.term@,
            timestamp: self.timestamp,
            sig: self.sig@,
            sig_algorithm: self.sig_algorithm@,
            phlo_price: self.phlo_price,
            phlo_limit: self.phlo_limit,
            valid_after_block_number: self.valid_after_block_number,
            shard_id: self.shard_id@,
            language: self.language@,
        }
    }
}

/// A deploy on the wire.
pub open spec fn wire_bytes(d: DeployView) -> Seq<u8> {
    set_bytes(1, d.deployer) + set_string(2, d.term) + set_int64(3, d.timestamp) + set_bytes(
        4,
        d.sig,
    ) + set_string(5, d.sig_algorithm) + set_int64(7, d.phlo_price) + set_int64(8, d.phlo_limit)
        + set_int64(10, d.valid_after_block_number) + set_string(11, d.shard_id) + set_string(
        12,
        d.language,
    )
}

/// What of a deploy is signed: the code, its language, the time and the limits, but not who
/// signs.
pub open spec fn projection(
    term: Seq<char>,
    timestamp: i64,
    phlo_limit: i64,
    valid_after_block_number: i64,
    language: Seq<char>,
) -> DeployView {
    DeployView {
        deployer: seq![],
        term,
        timestamp,
        sig: seq![],
        sig_algorithm: seq![],
        phlo_price: 1,
        phlo_limit,
        valid_after_block_number,
        shard_id: "root"@,
        language,
    }
}

/// A signed deploy: what was signed, with the signature and its algorithm, and the public key of
/// the signer.
pub open spec fn signed(unsigned: DeployView, sig: Seq<u8>, deployer: Seq<u8>) -> DeployView {
    DeployView { deployer, sig, sig_algorithm: "secp256k1"@, ..unsigned }
}

/// What is signed in the end: a digest of what of the deploy is signed.
pub open spec fn signing_digest(unsigned: DeployView) -> Seq<u8> {
    blake2b_256(wire_bytes(unsigned))
}

/// The signed deploy that a private key gives, if it gives a signature.
pub open spec fn signed_with(key: Seq<u8>, unsigned: DeployView) -> Option<DeployView> {
    match ecdsa_signature(key, signing_digest(unsigned)) {
        Some(signature) => Some(
            signed(unsigned, der_signature(signature), uncompressed_point(key)),
        ),
        None => None,
    }
}

/// A time in milliseconds as the timestamp of a deploy, wrapped round to the range of `i64`.
pub open spec fn timestamp_at(millis: u128) -> i64 {
    let low = millis as int % 0x1_0000_0000_0000_0000;
    if low < 0x8000_0000_0000_0000 {
        low as i64
    } else {
        (low - 0x1_0000_0000_0000_0000) as i64
    }
}

/// The most phlo that a deploy may use.
pub open spec fn phlo_limit_for(use_bigger_phlo_price: bool) -> i64 {
    if use_bigger_phlo_price {
        5_000_000_000
    } else {
        100_000
    }
}

/// The block after which a deploy is valid: the current one, or the first where the current one
/// is not known.
pub open spec fn valid_after(current_block: Result<i64, ApiError>) -> i64 {
    match current_block {
        Ok(number) => number,
        Err(_) => 0,
    }
}

/// Whether a line can be a deploy ID: more than 64 hexadecimal digits.
pub open spec fn is_long_hex(line: Seq<char>) -> bool {
    &&& line.len() > 64
    &&& forall|i: int| 0 <= i < line.len() ==> is_hex_digit_char(#[trigger] line[i])
}

/// Whether a character is a hexadecimal digit, of either case.
pub open spec fn is_hex_digit_char(c: char) -> bool {
    c as u32 <= 127 && is_hex_digit(c as u8)
}

/// The first line that can be a deploy ID, without the white space around it.
pub open spec fn first_long_hex(lines: Seq<Seq<char>>) -> Option<Seq<char>>
    decreases lines.len(),
{
    if lines.len() == 0 {
        None
    } else if is_long_hex(trimmed(lines.first())) {
        Some(trimmed(lines.first()))
    } else {
        first_long_hex(lines.drop_first())
    }
}

/// The deploy ID in a node's reply to a deploy. A reply that does not speak of success is the ID
/// itself.
pub open spec fn deploy_id_in(response: Seq<char>) -> Result<Seq<char>, ErrorView> {
    let cleaned = trimmed(response);
    if let Some(id) = after_prefix(cleaned, "Success! DeployId is: "@) {
        Ok(trimmed(id))
    } else if let Some(id) = after_prefix(cleaned, "Success!\nDeployId is: "@) {
        Ok(trimmed(id))
    } else if "Success!"@.is_prefix_of(cleaned) {
        match first_long_hex(lines_of(cleaned)) {
            Some(id) => Ok(id),
            None => Err(ErrorView::DeployIdMissing(response)),
        }
    } else {
        Ok(cleaned)
    }
}

/// The deploy ID, by what a node replied to a deploy.
pub open spec fn deploy_id_by(reply: Reply<String>) -> Result<Seq<char>, ErrorView> {
    match reply {
        Reply::Failed(said) => Err(ErrorView::Transport(said@)),
        Reply::Empty => Err(ErrorView::DeployResultMissing),
        Reply::Error(e) => Err(ErrorView::Service(e.display@)),
        Reply::Result(response) => deploy_id_in(response@),
    }
}

impl DeployData {
    /// Writes the message in its wire format.
    pub fn encode_to_vec(&self) -> (res: Vec<u8>)
        ensures
            res@ == wire_bytes(self@),
            res@ == delimited(10, self.deployer@) + delimited(18, encode_utf8(self.term@)) + number(
                24,
                self.timestamp,
            ) + delimited(34, self.sig@) + delimited(42, encode_utf8(self.sig_algorithm@)) + number(
                56,
                self.phlo_price,
            ) + number(64, self.phlo_limit) + number(80, self.valid_after_block_number) + delimited(
                90,
                encode_utf8(self.shard_id@),
            ) + delimited(98, encode_utf8(self.language@)),
    {
        proof {
            lemma_wire_layout(self@);
        }
        let mut out: Vec<u8> = Vec::new();
        write_bytes(1, &self.deployer, &mut out);
        assert(out@ =~= set_bytes(1, self.deployer@));
        write_string(2, &self.term, &mut out);
        write_int64(3, &self.timestamp, &mut out);
        write_bytes(4, &self.sig, &mut out);
        write_string(5, &self.sig_algorithm, &mut out);
        write_int64(7, &self.phlo_price, &mut out);
        write_int64(8, &self.phlo_limit, &mut out);
        write_int64(10, &self.valid_after_block_number, &mut out);
        write_string(11, &self.shard_id, &mut out);
        write_string(12, &self.language, &mut out);
        out
    }
}

/// A time in milliseconds as the timestamp of a deploy.
pub fn timestamp_of(millis: u128) -> (res: i64)
    ensures
        res == timestamp_at(millis),
        millis <= i64::MAX ==> res == millis,
        (millis - res) % 0x1_0000_0000_0000_0000 == 0,
{
    proof {
        assert(millis % 0x1_0000_0000_0000_0000u128 < 0x8000_0000_0000_0000u128 ==> (millis as i64)
            == millis % 0x1_0000_0000_0000_0000u128) by (bit_vector);
        assert(millis % 0x1_0000_0000_0000_0000u128 >= 0x8000_0000_0000_0000u128 ==> (millis as i64)
            == millis % 0x1_0000_0000_0000_0000u128 - 0x1_0000_0000_0000_0000) by (bit_vector);
    }
    millis as i64
}

/// The most phlo that a deploy may use.
pub fn phlo_limit(use_bigger_phlo_price: bool) -> (res: i64)
    ensures
        res == phlo_limit_for(use_bigger_phlo_price),
        use_bigger_phlo_price ==> res == 5_000_000_000,
        !use_bigger_phlo_price ==> res == 100_000,
{
    if use_bigger_phlo_price {
        5_000_000_000
    } else {
        100_000
    }
}

/// The block after which a deploy is valid.
pub fn valid_after_block(current_block: &Result<i64, ApiError>) -> (res: i64)
    ensures
        res == valid_after(*current_block),
        *current_block matches Ok(n) ==> res == n,
        *current_block is Err ==> res == 0,
{
    match current_block {
        Ok(number) => *number,
        Err(_) => 0,
    }
}

/// Puts together what of a deploy is signed.
pub fn unsigned_deploy(
    code: &str,
    timestamp: i64,
    phlo_limit: i64,
    valid_after_block_number: i64,
    language: &str,
) -> (res: DeployData)
    ensures
        res@ == projection(code@, timestamp, phlo_limit, valid_after_block_number, language@),
        res.term@ == code@,
        res.timestamp == timestamp,
        res.phlo_price == 1,
        res.phlo_limit == phlo_limit,
        res.valid_after_block_number == valid_after_block_number,
        res.shard_id@ == "root"@,
        res.language@ == language@,
        res.deployer@.len() == 0,
        res.sig@.len() == 0,
        res.sig_algorithm@.len() == 0,
{
    let res = DeployData {
        deployer: Vec::new(),
        term: code.to_string(),
        timestamp,
        sig: Vec::new(),
        sig_algorithm: String::new(),
        phlo_price: 1,
        phlo_limit,
        valid_after_block_number,
        shard_id: "root".to_string(),
        language: language.to_string(),
    };
    assert(res@.deployer =~= seq![] && res@.sig =~= seq![]);
    assert(res@.sig_algorithm =~= seq![]);
    res
}

/// Completes a deploy with a signature of two scalars and the public key of the signer.
pub fn with_signature(unsigned: DeployData, signature: &Vec<u8>, deployer: Vec<u8>) -> (res:
    DeployData)
    requires
        is_signature(signature@),
    ensures
        res@ == signed(unsigned@, der_signature(signature@), deployer@),
        res.deployer@ == deployer@,
        res.sig@ == der_signature(signature@),
        res.sig_algorithm@ == "secp256k1"@,
        res.term@ == unsigned.term@,
        res.timestamp == unsigned.timestamp,
        res.phlo_price == unsigned.phlo_price,
        res.phlo_limit == unsigned.phlo_limit,
        res.valid_after_block_number == unsigned.valid_after_block_number,
        res.shard_id@ == unsigned.shard_id@,
        res.language@ == unsigned.language@,
{
    DeployData {
        deployer,
        sig: to_der(signature),
        sig_algorithm: "secp256k1".to_string(),
        term: unsigned.term,
        timestamp: unsigned.timestamp,
        phlo_price: unsigned.phlo_price,
        phlo_limit: unsigned.phlo_limit,
        valid_after_block_number: unsigned.valid_after_block_number,
        shard_id: unsigned.shard_id,
        language: unsigned.language,
    }
}

/// Signs a deploy with a private key. There is none where the key gives no signature.
pub fn sign_deploy(key: &Vec<u8>, unsigned: DeployData) -> (res: Option<DeployData>)
    requires
        is_private_key(key@),
    ensures
        match signed_with(key@, unsigned@) {
            Some(view) => res is Some && res->0@ == view,
            None => res is None,
        },
        res is Some ==> is_uncompressed_point(res->0@.deployer),
        res is Some <==> ecdsa_signature(key@, blake2b_256(wire_bytes(unsigned@))) is Some,
        res matches Some(d) ==> {
            &&& d.deployer@ == uncompressed_point(key@)
            &&& d.sig@ == der_signature(
                ecdsa_signature(key@, blake2b_256(wire_bytes(unsigned@)))->0,
            )
            &&& d.sig_algorithm@ == "secp256k1"@
            &&& d.term@ == unsigned.term@
            &&& d.timestamp == unsigned.timestamp
            &&& d.phlo_price == unsigned.phlo_price
            &&& d.phlo_limit == unsigned.phlo_limit
            &&& d.valid_after_block_number == unsigned.valid_after_block_number
            &&& d.shard_id@ == unsigned.shard_id@
            &&& d.language@ == unsigned.language@
        },
{
    let serialized = unsigned.encode_to_vec();
    let digest = blake2b_256_hash(serialized.as_slice());
    match sign_prehash(key, &digest) {
        Some(signature) => Some(with_signature(unsigned, &signature, public_key(key))),
        None => None,
    }
}

/// Whether a character is a hexadecimal digit.
fn is_ascii_hexdigit(c: char) -> (res: bool)
    ensures
        res == is_hex_digit_char(c),
{
    let n: u32 = c as u32;
    (48 <= n && n <= 57) || (65 <= n && n <= 70) || (97 <= n && n <= 102)
}

/// Whether a line can be a deploy ID.
fn looks_like_deploy_id(line: &str) -> (res: bool)
    ensures
        res == is_long_hex(line@),
{
    if line.unicode_len() <= 64 {
        return false;
    }
    for c in it: line.chars()
        invariant
            it.seq() == line@,
            forall|i: int| 0 <= i < it.index() ==> is_hex_digit_char(#[trigger] line@[i]),
    {
        assert(line@[it.index() as int] == c);
        if !is_ascii_hexdigit(c) {
            return false;
        }
    }
    true
}

/// Reads the deploy ID from a node's reply to a deploy.
pub fn extract_deploy_id(response: &str) -> (res: Result<String, ApiError>)
    ensures
        outcome(res) == deploy_id_in(response@),
        res matches Ok(id) ==> reads_as_deploy_id(response@, id@),
        res matches Err(e) ==> (e matches ApiError::DeployIdMissing(r) && r@ == response@
            && names_no_deploy_id(response@)),
{
    proof {
        lemma_deploy_id_is_read_off_the_response(response@);
    }
    let cleaned = trim(response);
    match strip_prefix(cleaned, "Success! DeployId is: ") {
        Some(id) => {
            return Ok(trim(id).to_string());
        },
        None => {},
    }
    match strip_prefix(cleaned, "Success!\nDeployId is: ") {
        Some(id) => {
            return Ok(trim(id).to_string());
        },
        None => {},
    }
    if strip_prefix(cleaned, "Success!").is_none() {
        return Ok(cleaned.to_string());
    }
    let all = lines(cleaned);
    let ghost views = all.deep_view();
    assert(views.skip(0) =~= views);
    for i in 0..all.len()
        invariant
            views == all.deep_view(),
            first_long_hex(views) == first_long_hex(views.skip(i as int)),
            views == lines_of(cleaned@),
            cleaned@ == trimmed(response@),
            after_prefix(cleaned@, "Success! DeployId is: "@) is None,
            after_prefix(cleaned@, "Success!\nDeployId is: "@) is None,
            "Success!"@.is_prefix_of(cleaned@),
    {
        let ghost rest = views.skip(i as int);
        assert(rest.first() == all@[i as int]@);
        assert(rest.drop_first() =~= views.skip(i + 1));
        let line = trim(all[i].as_str());
        if looks_like_deploy_id(line) {
            proof {
                lemma_deploy_id_is_read_off_the_response(response@);
                assert(deploy_id_in(response@) == Ok::<Seq<char>, ErrorView>(line@));
            }
            return Ok(line.to_string());
        }
    }
    proof {
        lemma_deploy_id_is_read_off_the_response(response@);
    }
    Err(ApiError::DeployIdMissing(response.to_string()))
}

impl<'a> F1r3flyApi<'a> {
    /// Reads the deploy ID from what the node replied to a deploy.
    pub fn deploy(&self, reply: &Reply<String>) -> (res: Result<String, ApiError>)
        ensures
            outcome(res) == deploy_id_by(*reply),
            *reply matches Reply::Failed(said) ==> (res matches Err(ApiError::Transport(t)) && t@
                == said@),
            *reply is Empty ==> res matches Err(ApiError::DeployResultMissing),
            *reply matches Reply::Error(e) ==> (res matches Err(ApiError::Service(t)) && t@
                == e.display@),
            *reply matches Reply::Result(response) ==> outcome(res) == deploy_id_in(response@),
    {
        match reply {
            Reply::Failed(said) => Err(ApiError::Transport(said.clone())),
            Reply::Empty => Err(ApiError::DeployResultMissing),
            Reply::Error(e) => Err(ApiError::Service(e.display.clone())),
            Reply::Result(response) => extract_deploy_id(response.as_str()),
        }
    }
}

/// Two deploys that are the same on the wire are the same deploy.
pub proof fn lemma_wire_bytes_determine_the_deploy(a: DeployView, b: DeployView)
    requires
        wire_bytes(a) == wire_bytes(b),
    ensures
        a == b,
{
    let a12 = set_string(12, a.language) + seq![];
    let a11 = set_string(11, a.shard_id) + a12;
    let a10 = set_int64(10, a.valid_after_block_number) + a11;
    let a8 = set_int64(8, a.phlo_limit) + a10;
    let a7 = set_int64(7, a.phlo_price) + a8;
    let a5 = set_string(5, a.sig_algorithm) + a7;
    let a4 = set_bytes(4, a.sig) + a5;
    let a3 = set_int64(3, a.timestamp) + a4;
    let a2 = set_string(2, a.term) + a3;
    let a1 = set_bytes(1, a.deployer) + a2;
    lemma_regrouped(
        set_bytes(1, a.deployer),
        set_string(2, a.term),
        set_int64(3, a.timestamp),
        set_bytes(4, a.sig),
        set_string(5, a.sig_algorithm),
        set_int64(7, a.phlo_price),
        set_int64(8, a.phlo_limit),
        set_int64(10, a.valid_after_block_number),
        set_string(11, a.shard_id),
        set_string(12, a.language),
    );
    let b12 = set_string(12, b.language) + seq![];
    let b11 = set_string(11, b.shard_id) + b12;
    let b10 = set_int64(10, b.valid_after_block_number) + b11;
    let b8 = set_int64(8, b.phlo_limit) + b10;
    let b7 = set_int64(7, b.phlo_price) + b8;
    let b5 = set_string(5, b.sig_algorithm) + b7;
    let b4 = set_bytes(4, b.sig) + b5;
    let b3 = set_int64(3, b.timestamp) + b4;
    let b2 = set_string(2, b.term) + b3;
    let b1 = set_bytes(1, b.deployer) + b2;
    lemma_regrouped(
        set_bytes(1, b.deployer),
        set_string(2, b.term),
        set_int64(3, b.timestamp),
        set_bytes(4, b.sig),
        set_string(5, b.sig_algorithm),
        set_int64(7, b.phlo_price),
        set_int64(8, b.phlo_limit),
        set_int64(10, b.valid_after_block_number),
        set_string(11, b.shard_id),
        set_string(12, b.language),
    );
    lemma_later_fields_begin_above(a);
    lemma_later_fields_begin_above(b);
    lemma_bytes_are_self_delimiting(1, a.deployer, b.deployer, a2, b2);
    lemma_string_is_self_delimiting(2, a.term, b.term, a3, b3);
    lemma_int64_is_self_delimiting(3, a.timestamp, b.timestamp, a4, b4);
    lemma_bytes_are_self_delimiting(4, a.sig, b.sig, a5, b5);
    lemma_string_is_self_delimiting(5, a.sig_algorithm, b.sig_algorithm, a7, b7);
    lemma_int64_is_self_delimiting(7, a.phlo_price, b.phlo_price, a8, b8);
    lemma_int64_is_self_delimiting(8, a.phlo_limit, b.phlo_limit, a10, b10);
    lemma_int64_is_self_delimiting(
        10,
        a.valid_after_block_number,
        b.valid_after_block_number,
        a11,
        b11,
    );
    lemma_string_is_self_delimiting(11, a.shard_id, b.shard_id, a12, b12);
    lemma_string_is_self_delimiting(12, a.language, b.language, seq![], seq![]);
}

/// Concatenation is associative.
proof fn lemma_regrouped(
    f1: Seq<u8>,
    f2: Seq<u8>,
    f3: Seq<u8>,
    f4: Seq<u8>,
    f5: Seq<u8>,
    f6: Seq<u8>,
    f7: Seq<u8>,
    f8: Seq<u8>,
    f9: Seq<u8>,
    f10: Seq<u8>,
)
    ensures
        f1 + f2 + f3 + f4 + f5 + f6 + f7 + f8 + f9 + f10 == f1 + (f2 + (f3 + (f4 + (f5 + (f6 + (f7
            + (f8 + (f9 + (f10 + seq![]))))))))),
{
    assert(f10 + seq![] =~= f10);
    let r9 = f9 + f10;
    let r8 = f8 + r9;
    let r7 = f7 + r8;
    let r6 = f6 + r7;
    let r5 = f5 + r6;
    let r4 = f4 + r5;
    let r3 = f3 + r4;
    let r2 = f2 + r3;
    let l2 = f1 + f2;
    let l3 = l2 + f3;
    let l4 = l3 + f4;
    let l5 = l4 + f5;
    let l6 = l5 + f6;
    let l7 = l6 + f7;
    let l8 = l7 + f8;
    assert(l8 + f9 + f10 =~= l8 + r9);
    assert(l8 + r9 =~= l7 + r8);
    assert(l7 + r8 =~= l6 + r7);
    assert(l6 + r7 =~= l5 + r6);
    assert(l5 + r6 =~= l4 + r5);
    assert(l4 + r5 =~= l3 + r4);
    assert(l3 + r4 =~= l2 + r3);
    assert(l2 + r3 =~= f1 + r2);
}

/// What follows a field of a deploy begins with a greater key.
proof fn lemma_later_fields_begin_above(d: DeployView)
    ensures
        ({
            let d12 = set_string(12, d.language) + seq![];
            let d11 = set_string(11, d.shard_id) + d12;
            let d10 = set_int64(10, d.valid_after_block_number) + d11;
            let d8 = set_int64(8, d.phlo_limit) + d10;
            let d7 = set_int64(7, d.phlo_price) + d8;
            let d5 = set_string(5, d.sig_algorithm) + d7;
            let d4 = set_bytes(4, d.sig) + d5;
            let d3 = set_int64(3, d.timestamp) + d4;
            let d2 = set_string(2, d.term) + d3;
            &&& begins_above(d12, 90)
            &&& begins_above(d11, 80)
            &&& begins_above(d10, 64)
            &&& begins_above(d8, 56)
            &&& begins_above(d7, 42)
            &&& begins_above(d5, 34)
            &&& begins_above(d4, 24)
            &&& begins_above(d3, 18)
            &&& begins_above(d2, 10)
        }),
{
    let d12 = set_string(12, d.language) + seq![];
    let d11 = set_string(11, d.shard_id) + d12;
    let d10 = set_int64(10, d.valid_after_block_number) + d11;
    let d8 = set_int64(8, d.phlo_limit) + d10;
    let d7 = set_int64(7, d.phlo_price) + d8;
    let d5 = set_string(5, d.sig_algorithm) + d7;
    let d4 = set_bytes(4, d.sig) + d5;
    let d3 = set_int64(3, d.timestamp) + d4;
    lemma_fields_begin_above(set_string(12, d.language), seq![], 98, 90);
    lemma_fields_begin_above(set_string(11, d.shard_id), d12, 90, 80);
    lemma_fields_begin_above(set_int64(10, d.valid_after_block_number), d11, 80, 64);
    lemma_fields_begin_above(set_int64(8, d.phlo_limit), d10, 64, 56);
    lemma_fields_begin_above(set_int64(7, d.phlo_price), d8, 56, 42);
    lemma_fields_begin_above(set_string(5, d.sig_algorithm), d7, 42, 34);
    lemma_fields_begin_above(set_bytes(4, d.sig), d5, 34, 24);
    lemma_fields_begin_above(set_int64(3, d.timestamp), d4, 24, 18);
    lemma_fields_begin_above(set_string(2, d.term), d3, 18, 10);
}

/// What is signed of a deploy pins down its code, its language, its time and its limits.
pub proof fn lemma_signed_bytes_pin_the_deploy(
    term_a: Seq<char>,
    timestamp_a: i64,
    phlo_limit_a: i64,
    after_a: i64,
    language_a: Seq<char>,
    term_b: Seq<char>,
    timestamp_b: i64,
    phlo_limit_b: i64,
    after_b: i64,
    language_b: Seq<char>,
)
    requires
        wire_bytes(projection(term_a, timestamp_a, phlo_limit_a, after_a, language_a))
            == wire_bytes(projection(term_b, timestamp_b, phlo_limit_b, after_b, language_b)),
    ensures
        term_a == term_b,
        timestamp_a == timestamp_b,
        phlo_limit_a == phlo_limit_b,
        after_a == after_b,
        language_a == language_b,
{
    lemma_wire_bytes_determine_the_deploy(
        projection(term_a, timestamp_a, phlo_limit_a, after_a, language_a),
        projection(term_b, timestamp_b, phlo_limit_b, after_b, language_b),
    );
}

/// A signed deploy shows its receiver what was signed. With the signature, its algorithm and the
/// signer taken out and the language kept, its bytes are those whose digest was signed.
pub proof fn lemma_signed_deploy_shows_what_was_signed(
    key: Seq<u8>,
    term: Seq<char>,
    timestamp: i64,
    phlo_limit: i64,
    after: i64,
    language: Seq<char>,
)
    ensures
        signed_with(key, projection(term, timestamp, phlo_limit, after, language)) matches Some(d)
            ==> {
            let shown = DeployView { deployer: seq![], sig: seq![], sig_algorithm: seq![], ..d };
            &&& shown == projection(term, timestamp, phlo_limit, after, language)
            &&& ecdsa_signature(key, blake2b_256(wire_bytes(shown))) matches Some(signature)
                && d.sig == der_signature(signature)
            &&& d.deployer == uncompressed_point(key)
            &&& d.sig_algorithm == "secp256k1"@
        },
{
}

/// Where a reply says that the deploy succeeded and names its ID in one of the two usual forms,
/// the ID is read without the white space around it.
pub proof fn lemma_named_deploy_id_is_read(id: Seq<char>)
    requires
        trimmed(id).len() > 0,
    ensures
        deploy_id_in("Success! DeployId is: "@ + id) == Ok::<Seq<char>, ErrorView>(trimmed(id)),
        deploy_id_in("Success!\nDeployId is: "@ + id) == Ok::<Seq<char>, ErrorView>(trimmed(id)),
{
    lemma_trims_commute(id);
    lemma_trimmed_start_is_a_suffix(trimmed_end(id));
    let end = trimmed_end(id);
    lemma_trimmed_end_is_trimmed(id);
    let one = "Success! DeployId is: "@;
    let other = "Success!\nDeployId is: "@;
    reveal_strlit("Success! DeployId is: ");
    reveal_strlit("Success!\nDeployId is: ");
    lemma_trimmed_end_of_concatenation(one, id);
    lemma_trimmed_end_of_concatenation(other, id);
    assert((one + id).first() == 'S' && (other + id).first() == 'S');
    assert((one + end).skip(one.len() as int) =~= end);
    assert((other + end).skip(other.len() as int) =~= end);
    assert(one.is_prefix_of(one + end)) by {
        assert((one + end).subrange(0, one.len() as int) =~= one);
    }
    assert(other.is_prefix_of(other + end)) by {
        assert((other + end).subrange(0, other.len() as int) =~= other);
    }
    assert(!one.is_prefix_of(other + end)) by {
        assert((other + end).subrange(0, one.len() as int)[8] == '\n');
        assert(one[8] == ' ');
    }
    assert(trimmed(one + id) == one + end);
    assert(trimmed(other + id) == other + end);
    lemma_trimmed_end_is_trimmed(trimmed_start(id));
    assert(trimmed(end) == trimmed(id));
}

/// The hexadecimal form of bytes is made of hexadecimal digits, and has no white space around it.
proof fn lemma_hex_chars(bytes: Seq<u8>)
    requires
        bytes.len() > 0,
    ensures
        forall|i: int|
            0 <= i < hex_chars(bytes).len() ==> is_hex_digit_char(#[trigger] hex_chars(bytes)[i]),
        trimmed(hex_chars(bytes)) == hex_chars(bytes),
{
    let chars = hex_chars(bytes);
    assert forall|i: int| 0 <= i < chars.len() implies is_hex_digit_char(#[trigger] chars[i])
        && !is_white_space(chars[i]) by {}
    assert(!is_white_space(chars[0]) && !is_white_space(chars[chars.len() - 1]));
}

/// The way of a deploy ID. The ID of a deploy is the hexadecimal form of its signature in DER.
/// Whether a node replies with the ID alone, or with the ID after either announcement of success,
/// the ID is read as it is; and the name under which its data is looked up holds that very
/// signature. An ID of more than 64 digits is also read off a line of its own.
pub proof fn lemma_deploy_id_names_its_signature(signature: Seq<u8>)
    requires
        is_signature(signature),
    ensures
        ({
            let sig = der_signature(signature);
            let id = hex_chars(sig);
            let read = Ok::<Seq<char>, ErrorView>(id);
            &&& deploy_id_in(id) == read
            &&& deploy_id_in("Success! DeployId is: "@ + id) == read
            &&& deploy_id_in("Success!\nDeployId is: "@ + id) == read
            &&& id.len() > 64 ==> deploy_id_in("Success!\n"@ + id) == read
            &&& hex_decoded(encode_utf8(id)) == Ok::<Seq<u8>, HexError>(sig)
        }),
{
    let sig = der_signature(signature);
    let id = hex_chars(sig);
    lemma_der_signature_length(signature);
    lemma_hex_round_trip(sig);
    lemma_hex_chars(sig);
    lemma_named_deploy_id_is_read(id);
    reveal_strlit("Success!");
    assert(is_hex_digit_char(id[0]));
    assert(!"Success!"@.is_prefix_of(id)) by {
        if "Success!"@.is_prefix_of(id) {
            assert(id.subrange(0, 8)[0] == 'S');
        }
    }
    lemma_other_reply_is_the_deploy_id(id);
    if id.len() > 64 {
        lemma_deploy_id_on_its_line(id);
    }
}

/// A hexadecimal digit is no white space, and no line feed in particular.
proof fn lemma_digit_is_no_space(c: char)
    requires
        is_hex_digit_char(c),
    ensures
        !is_white_space(c),
        c != '\n',
{
}

/// A deploy ID of more than 64 digits is read off a line after one that speaks of success.
pub proof fn lemma_deploy_id_on_its_line(id: Seq<char>)
    requires
        is_long_hex(id),
    ensures
        deploy_id_in("Success!\n"@ + id) == Ok::<Seq<char>, ErrorView>(id),
{
    let head = "Success!\n"@;
    let response = head + id;
    let one = "Success! DeployId is: "@;
    let other = "Success!\nDeployId is: "@;
    reveal_strlit("Success!");
    reveal_strlit("Success!\n");
    reveal_strlit("Success! DeployId is: ");
    reveal_strlit("Success!\nDeployId is: ");
    assert forall|i: int| 0 <= i < id.len() implies !is_white_space(#[trigger] id[i]) && id[i]
        != '\n' by {
        lemma_digit_is_no_space(id[i]);
    }
    assert(trimmed(id) == id);
    assert(response.first() == 'S');
    assert(response.last() == id.last());
    assert(trimmed(response) == response);
    if one.is_prefix_of(response) {
        assert(response.subrange(0, one.len() as int)[8] == '\n');
    }
    if other.is_prefix_of(response) {
        assert(response.subrange(0, other.len() as int)[11] == id[2]);
        assert(is_hex_digit_char(id[2]));
    }
    assert(response.subrange(0, 8) =~= "Success!"@);
    // The response has two lines, of which the first is too short for an ID.
    let start = "Success!"@;
    assert(response =~= start + (seq!['\n'] + id));
    lemma_line_before_a_feed(seq![], start, id);
    assert(!id.contains('\n'));
    lemma_single_line(seq![], id);
    assert(seq![] + id =~= id);
    assert(seq![] + start =~= start);
    let lines = lines_of(response);
    assert(lines =~= seq![start, id]);
    assert(trimmed(start) == start);
    assert(lines.drop_first() =~= seq![id]);
    assert(lines.drop_first().first() == id);
    assert(first_long_hex(lines.drop_first()) == Some(id));
}

/// What stands before the first line feed is a line, where it does not end in a carriage return.
proof fn lemma_line_before_a_feed(line: Seq<char>, head: Seq<char>, rest: Seq<char>)
    requires
        !head.contains('\n'),
        line.len() + head.len() > 0,
        (line + head).last() != '\r',
    ensures
        lines_from(line, head + (seq!['\n'] + rest)) == seq![line + head] + lines_from(seq![], rest),
    decreases head.len(),
{
    let all = head + (seq!['\n'] + rest);
    if head.len() == 0 {
        assert(all.first() == '\n');
        assert(all.drop_first() =~= rest);
        assert(line + head =~= line);
    } else {
        assert(head.contains(head[0]));
        let tail = head.drop_first();
        assert forall|c: char| tail.contains(c) implies head.contains(c) by {
            let i = choose|i: int| 0 <= i < tail.len() && tail[i] == c;
            assert(head[i + 1] == c);
        }
        assert(all.first() == head.first());
        assert(all.drop_first() =~= tail + (seq!['\n'] + rest));
        assert(line.push(head.first()) + tail =~= line + head);
        lemma_line_before_a_feed(line.push(head.first()), tail, rest);
    }
}

/// A reply that does not speak of success is the deploy ID itself, without the white space around
/// it.
pub proof fn lemma_other_reply_is_the_deploy_id(response: Seq<char>)
    requires
        !"Success!"@.is_prefix_of(trimmed(response)),
    ensures
        deploy_id_in(response) == Ok::<Seq<char>, ErrorView>(trimmed(response)),
{
    let cleaned = trimmed(response);
    let start = "Success!"@;
    let one = "Success! DeployId is: "@;
    let other = "Success!\nDeployId is: "@;
    reveal_strlit("Success!");
    reveal_strlit("Success! DeployId is: ");
    reveal_strlit("Success!\nDeployId is: ");
    assert(one.subrange(0, 8) =~= start);
    assert(other.subrange(0, 8) =~= start);
    if one.is_prefix_of(cleaned) {
        assert(cleaned.subrange(0, one.len() as int).subrange(0, 8) =~= cleaned.subrange(0, 8));
    }
    if other.is_prefix_of(cleaned) {
        assert(cleaned.subrange(0, other.len() as int).subrange(0, 8) =~= cleaned.subrange(0, 8));
    }
}

/// A deploy ID that is read has no white space around it.
pub proof fn lemma_deploy_id_is_trimmed(response: Seq<char>)
    ensures
        deploy_id_in(response) matches Ok(id) ==> trimmed(id) == id,
{
    let cleaned = trimmed(response);
    lemma_trimmed_twice(response);
    lemma_trimmed_twice(cleaned.skip("Success! DeployId is: "@.len() as int));
    lemma_trimmed_twice(cleaned.skip("Success!\nDeployId is: "@.len() as int));
    lemma_first_long_hex(lines_of(cleaned));
}

/// The line that is taken for a deploy ID is one of the lines, is made of more than 64
/// hexadecimal digits, and has no white space around it.
pub proof fn lemma_first_long_hex(lines: Seq<Seq<char>>)
    ensures
        match first_long_hex(lines) {
            Some(id) => {
                &&& is_long_hex(id)
                &&& trimmed(id) == id
                &&& exists|i: int| 0 <= i < lines.len() && trimmed(#[trigger] lines[i]) == id
            },
            None => forall|i: int|
                0 <= i < lines.len() ==> !is_long_hex(trimmed(#[trigger] lines[i])),
        },
    decreases lines.len(),
{
    if lines.len() > 0 {
        lemma_trimmed_twice(lines.first());
        if is_long_hex(trimmed(lines.first())) {
            assert(trimmed(lines[0]) == first_long_hex(lines)->0);
        } else {
            let rest = lines.drop_first();
            lemma_first_long_hex(rest);
            match first_long_hex(rest) {
                Some(id) => {
                    let i = choose|i: int| 0 <= i < rest.len() && trimmed(#[trigger] rest[i]) == id;
                    assert(lines[i + 1] == rest[i]);
                },
                None => {
                    assert forall|i: int| 0 <= i < lines.len() implies !is_long_hex(
                        trimmed(#[trigger] lines[i]),
                    ) by {
                        if i > 0 {
                            assert(lines[i] == rest[i - 1]);
                        }
                    }
                },
            }
        }
    }
}

/// A field of bytes under a key of one byte: the key, the number of the bytes, and the bytes. It
/// is left out where there are none.
pub open spec fn delimited(key: u8, bytes: Seq<u8>) -> Seq<u8> {
    if bytes.len() == 0 {
        seq![]
    } else {
        seq![key] + varint(bytes.len()) + bytes
    }
}

/// A field of an integer under a key of one byte. It is left out where it is zero.
pub open spec fn number(key: u8, n: i64) -> Seq<u8> {
    if n == 0 {
        seq![]
    } else {
        seq![key] + varint(as_unsigned(n))
    }
}

/// Each field of a deploy stands on the wire under the key of its own tag and kind, in the order
/// of the tags.
pub proof fn lemma_wire_layout(d: DeployView)
    ensures
        wire_bytes(d) == delimited(10, d.deployer) + delimited(18, encode_utf8(d.term)) + number(
            24,
            d.timestamp,
        ) + delimited(34, d.sig) + delimited(42, encode_utf8(d.sig_algorithm)) + number(
            56,
            d.phlo_price,
        ) + number(64, d.phlo_limit) + number(80, d.valid_after_block_number) + delimited(
            90,
            encode_utf8(d.shard_id),
        ) + delimited(98, encode_utf8(d.language)),
{
    lemma_text_field(2, d.term);
    lemma_text_field(5, d.sig_algorithm);
    lemma_text_field(11, d.shard_id);
    lemma_text_field(12, d.language);
    assert(set_bytes(1, d.deployer) == delimited(10, d.deployer));
    assert(set_bytes(4, d.sig) == delimited(34, d.sig));
    assert(set_int64(3, d.timestamp) == number(24, d.timestamp));
    assert(set_int64(7, d.phlo_price) == number(56, d.phlo_price));
    assert(set_int64(8, d.phlo_limit) == number(64, d.phlo_limit));
    assert(set_int64(10, d.valid_after_block_number) == number(80, d.valid_after_block_number));
}

/// A field of text is one of the text's bytes.
proof fn lemma_text_field(tag: nat, text: Seq<char>)
    requires
        8 * tag + 2 < 128,
    ensures
        set_string(tag, text) == delimited((8 * tag + 2) as u8, encode_utf8(text)),
{
    lemma_utf8_determines_the_text(text, text);
}

/// Whether the signature of a deploy is the one that a private key gives for the deploy as its
/// receiver sees it, with what names the signer taken out.
pub open spec fn signs(key: Seq<u8>, d: DeployData) -> bool {
    let shown = DeployView {
        deployer: seq![],
        term: d.term@,
        timestamp: d.timestamp,
        sig: seq![],
        sig_algorithm: seq![],
        phlo_price: d.phlo_price,
        phlo_limit: d.phlo_limit,
        valid_after_block_number: d.valid_after_block_number,
        shard_id: d.shard_id@,
        language: d.language@,
    };
    ecdsa_signature(key, blake2b_256(wire_bytes(shown))) matches Some(signature) && d.sig@
        == der_signature(signature)
}

/// The mathematical value of a deploy message shows every field of it.
pub proof fn lemma_view_shows_the_message(d: DeployData)
    ensures
        d@.deployer == d.deployer@,
        d@.term == d.term@,
        d@.timestamp == d.timestamp,
        d@.sig == d.sig@,
        d@.sig_algorithm == d.sig_algorithm@,
        d@.phlo_price == d.phlo_price,
        d@.phlo_limit == d.phlo_limit,
        d@.valid_after_block_number == d.valid_after_block_number,
        d@.shard_id == d.shard_id@,
        d@.language == d.language@,
{
}

/// Whether a text is made of more than 64 characters from `0` to `9`, `a` to `f` and `A` to `F`.
pub open spec fn has_digits_of_an_id(text: Seq<char>) -> bool {
    &&& text.len() >= 65
    &&& forall|i: int|
        0 <= i < text.len() ==> {
            ||| '0' <= #[trigger] text[i] <= '9'
            ||| 'a' <= text[i] <= 'f'
            ||| 'A' <= text[i] <= 'F'
        }
}

/// Whether a text can have been read from a response as a deploy ID: it is what follows one of the
/// two announcements, or a line of digits after a success, or the response itself, and in each
/// case without the white space around it.
pub open spec fn reads_as_deploy_id(response: Seq<char>, id: Seq<char>) -> bool {
    let cleaned = trimmed(response);
    let one = "Success! DeployId is: "@;
    let other = "Success!\nDeployId is: "@;
    if one.is_prefix_of(cleaned) {
        id == trimmed(cleaned.skip(one.len() as int))
    } else if other.is_prefix_of(cleaned) {
        id == trimmed(cleaned.skip(other.len() as int))
    } else if "Success!"@.is_prefix_of(cleaned) {
        has_digits_of_an_id(id) && exists|k: int|
            0 <= k < lines_of(cleaned).len() && trimmed(#[trigger] lines_of(cleaned)[k]) == id
    } else {
        id == cleaned
    }
}

/// Whether a response speaks of success but names no deploy ID, neither after one of the two
/// announcements nor on a line of its own.
pub open spec fn names_no_deploy_id(response: Seq<char>) -> bool {
    let cleaned = trimmed(response);
    &&& "Success!"@.is_prefix_of(cleaned)
    &&& !"Success! DeployId is: "@.is_prefix_of(cleaned)
    &&& !"Success!\nDeployId is: "@.is_prefix_of(cleaned)
    &&& forall|k: int|
        0 <= k < lines_of(cleaned).len() ==> !has_digits_of_an_id(
            trimmed(#[trigger] lines_of(cleaned)[k]),
        )
}

/// A deploy ID is read off the response and is nothing else; none is read only after a success
/// that names none.
pub proof fn lemma_deploy_id_is_read_off_the_response(response: Seq<char>)
    ensures
        deploy_id_in(response) matches Ok(id) ==> reads_as_deploy_id(response, id),
        deploy_id_in(response) matches Err(e) ==> e == ErrorView::DeployIdMissing(response)
            && names_no_deploy_id(response),
{
    let lines = lines_of(trimmed(response));
    lemma_first_long_hex(lines);
    assert forall|k: int| 0 <= k < lines.len() implies (is_long_hex(trimmed(#[trigger] lines[k]))
        <==> has_digits_of_an_id(trimmed(lines[k]))) by {
        lemma_long_hex_has_digits(trimmed(lines[k]));
    }
    match first_long_hex(lines) {
        Some(id) => {
            lemma_long_hex_has_digits(id);
        },
        None => {},
    }
}

/// What is taken for a deploy ID on a line of its own is the first line with more than 64
/// hexadecimal digits, of either case, and with nothing else but white space around them.
pub proof fn lemma_first_line_of_digits_is_the_id(response: Seq<char>, k: int)
    requires
        "Success!"@.is_prefix_of(trimmed(response)),
        !"Success! DeployId is: "@.is_prefix_of(trimmed(response)),
        !"Success!\nDeployId is: "@.is_prefix_of(trimmed(response)),
        0 <= k <= lines_of(trimmed(response)).len(),
        forall|j: int|
            0 <= j < k ==> !has_digits_of_an_id(trimmed(#[trigger] lines_of(trimmed(response))[j])),
    ensures
        k < lines_of(trimmed(response)).len() && has_digits_of_an_id(
            trimmed(lines_of(trimmed(response))[k]),
        ) ==> deploy_id_in(response) == Ok::<Seq<char>, ErrorView>(
            trimmed(lines_of(trimmed(response))[k]),
        ),
        k == lines_of(trimmed(response)).len() ==> deploy_id_in(response) == Err::<
            Seq<char>,
            ErrorView,
        >(ErrorView::DeployIdMissing(response)),
{
    lemma_first_line_of_digits(lines_of(trimmed(response)), k);
}

/// The first line of digits among lines.
proof fn lemma_first_line_of_digits(lines: Seq<Seq<char>>, k: int)
    requires
        0 <= k <= lines.len(),
        forall|j: int| 0 <= j < k ==> !has_digits_of_an_id(trimmed(#[trigger] lines[j])),
    ensures
        k < lines.len() && has_digits_of_an_id(trimmed(lines[k])) ==> first_long_hex(lines)
            == Some(trimmed(lines[k])),
        k == lines.len() ==> first_long_hex(lines) is None,
    decreases lines.len(),
{
    if lines.len() > 0 {
        lemma_long_hex_has_digits(trimmed(lines[0]));
        if k > 0 {
            let rest = lines.drop_first();
            assert(!has_digits_of_an_id(trimmed(lines[0])));
            assert forall|j: int| 0 <= j < k - 1 implies !has_digits_of_an_id(
                trimmed(#[trigger] rest[j]),
            ) by {
                assert(rest[j] == lines[j + 1]);
            }
            if k < lines.len() {
                assert(rest[k - 1] == lines[k]);
            }
            lemma_first_line_of_digits(rest, k - 1);
        }
    }
}

/// The two ways to say that a text is made of more than 64 hexadecimal digits agree.
proof fn lemma_long_hex_has_digits(text: Seq<char>)
    ensures
        is_long_hex(text) <==> has_digits_of_an_id(text),
{
    assert forall|i: int| 0 <= i < text.len() implies (is_hex_digit_char(#[trigger] text[i]) <==> {
        ||| '0' <= text[i] <= '9'
        ||| 'a' <= text[i] <= 'f'
        ||| 'A' <= text[i] <= 'F'
    }) by {
        lemma_digit_ranges(text[i]);
    }
    if is_long_hex(text) {
        assert forall|i: int| 0 <= i < text.len() implies {
            ||| '0' <= #[trigger] text[i] <= '9'
            ||| 'a' <= text[i] <= 'f'
            ||| 'A' <= text[i] <= 'F'
        } by {
            assert(is_hex_digit_char(text[i]));
        }
    }
}

/// The hexadecimal digits are those from `0` to `9`, `a` to `f` and `A` to `F`.
proof fn lemma_digit_ranges(c: char)
    ensures
        is_hex_digit_char(c) <==> {
            ||| '0' <= c <= '9'
            ||| 'a' <= c <= 'f'
            ||| 'A' <= c <= 'F'
        },
{
}

} // verus!
