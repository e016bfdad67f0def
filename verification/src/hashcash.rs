//! Proof-of-work stamps: a text that names a resource and a time, and a
//! counter chosen so that the digest of the whole begins with zeros.
use vstd::prelude::*;
use vstd::utf8::encode_utf8;
use std::fmt::Write;
use rand::distr::{Alphanumeric, Distribution};
use sha3::{Digest, Sha3_256};
use crate::clock::{read_clock, Reading, SECONDS_LIMIT};
use crate::text::{
    chars_of, decimal, free_of, lemma_decimal_is_read_back, lemma_split_more, lemma_split_whole,
    lower_hex, parse_u32, parsed_u32, parts_of, push_all, push_decimal, push_lower_hex, push_str,
    split, split_chars, string_of,
};

verus! {

/// How many characters the random part of a minted stamp has.
pub const SALT_LENGTH: usize = 16;

/// How many bits a stamp claims where the caller names no number.
pub const DEFAULT_BITS: u32 = 20;

/// How a stamp writes its time: year, month, day, hour, minute and second,
/// in digits without anything between them.
pub const TIME_FORMAT: &'static str = "%Y%m%d%H%M%S";

/// For how many seconds after its own time a stamp is fresh.
pub const FRESH_SECONDS: i64 = 300;

/// The last counter that minting tries.
pub const MAX_COUNTER: u64 = 2_147_483_647;

/// The SHA3-256 digest of a byte string.
pub uninterp spec fn sha3_256(bytes: Seq<u8>) -> Seq<u8>;

/// The second that a text names when read in a format, counted from the Unix
/// epoch and taken as UTC; none where the text does not fit the format.
pub uninterp spec fn time_of_text(text: Seq<char>, format: Seq<char>) -> Option<int>;

/// The text that names a second, counted from the Unix epoch and taken as
/// UTC, in a format; none where the calendar does not reach the second or the
/// format cannot be written.
pub uninterp spec fn text_of_time(seconds: int, format: Seq<char>) -> Option<Seq<char>>;

/// The SHA3-256 digest of `bytes`, as `Sha3_256` of the sha3 crate computes
/// it from one `update` and `finalize`. Nothing is claimed of what the digest
/// holds.
#[verifier::external_body]
fn digest(bytes: &[u8]) -> (digest: Vec<u8>)
    ensures
        digest@ == sha3_256(bytes@),
{
    let mut hasher = Sha3_256::new();
    hasher.update(bytes);
    hasher.finalize().to_vec()
}

/// The second that `text` names in `format`: `parse_from_str` of chrono's
/// `NaiveDateTime`, its result taken as UTC and counted in seconds since the
/// epoch. Nothing is claimed of which texts fit.
#[verifier::external_body]
fn parse_time(text: &str, format: &str) -> (seconds: Option<i64>)
    ensures
        match seconds {
            Some(at) => time_of_text(text@, format@) == Some(at as int),
            None => time_of_text(text@, format@) is None,
        },
{
    match chrono::NaiveDateTime::parse_from_str(text, format) {
        Ok(time) => Some(time.and_utc().timestamp()),
        Err(_) => None,
    }
}

/// The text that names the second `seconds` in `format`: chrono's
/// `DateTime::from_timestamp` and `format`, written into a string. Nothing is
/// claimed of what the text holds.
#[verifier::external_body]
fn format_time(seconds: i64, format: &str) -> (text: Option<String>)
    ensures
        match text {
            Some(text) => text_of_time(seconds as int, format@) == Some(text@),
            None => text_of_time(seconds as int, format@) is None,
        },
{
    let time = chrono::DateTime::from_timestamp(seconds, 0)?;
    let mut text = String::new();
    match write!(text, "{}", time.format(format)) {
        Ok(()) => Some(text),
        Err(_) => None,
    }
}

/// Whether a character is a digit or a Latin letter.
pub open spec fn is_alphanumeric(c: char) -> bool {
    ('0' <= c <= '9') || ('A' <= c <= 'Z') || ('a' <= c <= 'z')
}

/// `length` characters drawn at random: samples of rand's `Alphanumeric`
/// from the thread's generator. Each one is a digit or a Latin letter; which
/// ones come is not said, and two calls may differ.
#[verifier::external_body]
fn random_alphanumeric(length: usize) -> (salt: String)
    ensures
        salt@.len() == length,
        forall|i: int| 0 <= i < length ==> is_alphanumeric(#[trigger] salt@[i]),
{
    String::from_iter(Alphanumeric.sample_iter(rand::rng()).take(length).map(char::from))
}

/// The hexadecimal digit at `i` of a byte string that is written with two
/// digits for each byte, as a number.
pub open spec fn hex_digit(bytes: Seq<u8>, i: int) -> int {
    if i % 2 == 0 {
        bytes[i / 2] as int / 16
    } else {
        bytes[i / 2] as int % 16
    }
}

/// Whether a byte string, written in hexadecimal digits, begins with
/// `digits` zeros.
pub open spec fn starts_with_zeros(bytes: Seq<u8>, digits: nat) -> bool {
    digits <= 2 * bytes.len() && forall|i: int| 0 <= i < digits ==> hex_digit(bytes, i) == 0
}

/// Whether a byte string, written in hexadecimal digits, begins with
/// `digits` zeros.
pub fn has_zero_digits(bytes: &Vec<u8>, digits: usize) -> (answer: bool)
    ensures
        answer == starts_with_zeros(bytes@, digits as nat),
{
    if digits / 2 > bytes.len() || (digits / 2 == bytes.len() && digits % 2 == 1) {
        return false;
    }
    let mut i: usize = 0;
    while i < digits
        invariant
            i <= digits,
            digits <= 2 * bytes.len(),
            forall|k: int| 0 <= k < i ==> hex_digit(bytes@, k) == 0,
        decreases digits - i,
    {
        let byte = bytes[i / 2];
        let value = if i % 2 == 0 {
            byte / 16
        } else {
            byte % 16
        };
        if value != 0 {
            assert(hex_digit(bytes@, i as int) != 0);
            return false;
        }
        i += 1;
    }
    true
}

/// A stamp, as the contracts see it.
pub struct StampView {
    pub version: Seq<char>,
    pub claim: nat,
    pub ts: Seq<char>,
    pub resource: Seq<char>,
    pub ext: Seq<char>,
    pub rand: Seq<char>,
    pub counter: Seq<char>,
}

/// The text of a stamp up to its counter: the parts with a colon between
/// each two.
pub open spec fn challenge_text(
    version: Seq<char>,
    claim: nat,
    ts: Seq<char>,
    resource: Seq<char>,
    ext: Seq<char>,
    rand: Seq<char>,
) -> Seq<char> {
    version + seq![':'] + decimal(claim) + seq![':'] + ts + seq![':'] + resource + seq![':'] + ext
        + seq![':'] + rand
}

/// Whether `counter` makes the digest of the challenge and the counter begin
/// with `digits` zeros.
pub open spec fn solves(challenge: Seq<char>, digits: nat, counter: Seq<char>) -> bool {
    starts_with_zeros(sha3_256(encode_utf8(challenge + seq![':'] + counter)), digits)
}

impl StampView {
    /// The stamp up to its counter.
    pub open spec fn challenge(self) -> Seq<char> {
        challenge_text(self.version, self.claim, self.ts, self.resource, self.ext, self.rand)
    }

    /// The stamp as a text: its seven parts with a colon between each two.
    pub open spec fn text(self) -> Seq<char> {
        self.challenge() + seq![':'] + self.counter
    }

    /// Whether the stamp is fresh at `now`: its time can be read, and `now`
    /// is not more than `FRESH_SECONDS` after it.
    pub open spec fn fresh_at(self, now: Reading) -> bool {
        match time_of_text(self.ts, TIME_FORMAT@) {
            Some(at) => now.not_after(at + FRESH_SECONDS),
            None => false,
        }
    }

    /// Whether the stamp passes a check at `now` for `bits` bits of work on
    /// `resource`: it is of version 1, claims at least `bits`, is fresh,
    /// names the resource, and its digest begins with a zero for each four
    /// bits that it claims.
    pub open spec fn valid_at(self, bits: u32, resource: Seq<char>, now: Reading) -> bool {
        &&& self.version == "1"@
        &&& bits <= self.claim
        &&& self.fresh_at(now)
        &&& self.resource == resource
        &&& solves(self.challenge(), self.claim / 4, self.counter)
    }
}

/// A proof-of-work stamp.
#[derive(Debug)]
pub struct Stamp {
    pub version: String,
    pub claim: u32,
    pub ts: String,
    pub resource: String,
    pub ext: String,
    pub rand: String,
    pub counter: String,
}

impl View for Stamp {
    type V = StampView;

    open spec fn view(&self) -> StampView {
        StampView {
            version: self.version@,
            claim: self.claim as nat,
            ts: self.ts@,
            resource: self.resource@,
            ext: self.ext@,
            rand: self.rand@,
            counter: self.counter@,
        }
    }
}

/// The characters of a challenge.
fn challenge_chars(
    version: &str,
    claim: u32,
    ts: &str,
    resource: &str,
    ext: &str,
    rand: &str,
) -> (chars: Vec<char>)
    ensures
        chars@ == challenge_text(version@, claim as nat, ts@, resource@, ext@, rand@),
{
    let mut chars: Vec<char> = Vec::new();
    push_str(&mut chars, version);
    chars.push(':');
    push_decimal(&mut chars, claim as u64);
    chars.push(':');
    push_str(&mut chars, ts);
    chars.push(':');
    push_str(&mut chars, resource);
    chars.push(':');
    push_str(&mut chars, ext);
    chars.push(':');
    push_str(&mut chars, rand);
    assert(chars@ =~= challenge_text(version@, claim as nat, ts@, resource@, ext@, rand@));
    chars
}

impl Stamp {
    /// The stamp as a text: its seven parts with a colon between each two,
    /// the claim in decimal digits.
    pub fn format(&self) -> (text: String)
        ensures
            text@ == self@.text(),
    {
        let mut chars = challenge_chars(
            self.version.as_str(),
            self.claim,
            self.ts.as_str(),
            self.resource.as_str(),
            self.ext.as_str(),
            self.rand.as_str(),
        );
        chars.push(':');
        push_str(&mut chars, self.counter.as_str());
        assert(chars@ =~= self@.text());
        string_of(&chars)
    }

    /// Whether the stamp is fresh at `now`.
    pub fn check_expiration_at(&self, now: Reading) -> (fresh: bool)
        ensures
            fresh == self@.fresh_at(now),
    {
        match parse_time(self.ts.as_str(), TIME_FORMAT) {
            Some(at) => match at.checked_add(FRESH_SECONDS) {
                Some(until) => now.seconds < until || (now.seconds == until && now.nanos == 0),
                None => true,
            },
            None => false,
        }
    }

    /// Whether the stamp is fresh now, by the system clock.
    pub fn check_expiration(&self) -> (fresh: bool)
        ensures
            exists|now: Reading|
                -SECONDS_LIMIT < now.seconds < SECONDS_LIMIT && fresh == #[trigger] self@.fresh_at(
                    now,
                ),
    {
        let now = read_clock();
        let fresh = self.check_expiration_at(now);
        assert(fresh == self@.fresh_at(now));
        fresh
    }

    /// Whether the stamp passes a check at `now` for `bits` bits of work on
    /// `resource`.
    pub fn check_at(&self, bits: u32, resource: &str, now: Reading) -> (valid: bool)
        ensures
            valid == self@.valid_at(bits, resource@, now),
    {
        let one = String::from_str("1");
        let wanted = String::from_str(resource);
        if self.version == one && bits <= self.claim && self.check_expiration_at(now)
            && self.resource == wanted {
            let text = self.format();
            let found = digest(text.as_str().as_bytes());
            has_zero_digits(&found, (self.claim / 4) as usize)
        } else {
            false
        }
    }

    /// Whether the stamp passes a check now, by the system clock, for `bits`
    /// bits of work on `resource`.
    pub fn check(&self, bits: u32, resource: &str) -> (valid: bool)
        ensures
            exists|now: Reading|
                -SECONDS_LIMIT < now.seconds < SECONDS_LIMIT && valid == #[trigger] self@.valid_at(
                    bits,
                    resource@,
                    now,
                ),
    {
        let now = read_clock();
        let valid = self.check_at(bits, resource, now);
        assert(valid == self@.valid_at(bits, resource@, now));
        valid
    }
}

/// How many zeros the digest of a minted stamp begins with: one for each four
/// bits that the stamp claims, and one for what is left over.
pub open spec fn digits_for(bits: nat) -> nat {
    (bits + 3) / 4
}

/// The first counter from `from` to `MAX_COUNTER` that, written in
/// hexadecimal digits, solves the challenge; none where none of them does.
pub open spec fn first_solution(challenge: Seq<char>, digits: nat, from: nat) -> Option<nat>
    decreases MAX_COUNTER + 1 - from,
{
    if from > MAX_COUNTER {
        None
    } else if solves(challenge, digits, lower_hex(from)) {
        Some(from)
    } else {
        first_solution(challenge, digits, from + 1)
    }
}

/// The stamp that minting makes for a resource at a time that is written as
/// `ts`, with the random part `rand`: of version 1, with the bits asked for
/// or `DEFAULT_BITS`, without extension, and with the first counter that
/// solves it; none where no counter up to `MAX_COUNTER` does.
pub open spec fn minted(
    resource: Seq<char>,
    bits: Option<u32>,
    ts: Seq<char>,
    rand: Seq<char>,
) -> Option<StampView> {
    let claim = match bits {
        Some(bits) => bits as nat,
        None => DEFAULT_BITS as nat,
    };
    let challenge = challenge_text("1"@, claim, ts, resource, Seq::empty(), rand);
    match first_solution(challenge, digits_for(claim), 0) {
        Some(counter) => Some(
            StampView {
                version: "1"@,
                claim,
                ts,
                resource,
                ext: Seq::empty(),
                rand,
                counter: lower_hex(counter),
            },
        ),
        None => None,
    }
}

/// What minting comes to at a second of the clock with a random part: the
/// stamp that is minted for the text of the second, and none where the second
/// cannot be written.
pub open spec fn mint_outcome(
    resource: Seq<char>,
    bits: Option<u32>,
    seconds: int,
    rand: Seq<char>,
    stamp: Option<StampView>,
) -> bool {
    match text_of_time(seconds, TIME_FORMAT@) {
        Some(ts) => stamp == minted(resource, bits, ts, rand),
        None => stamp is None,
    }
}

/// A stamp, if there is one, as the contracts see it.
pub open spec fn stamp_view(stamp: Option<Stamp>) -> Option<StampView> {
    match stamp {
        Some(stamp) => Some(stamp@),
        None => None,
    }
}

/// What a text says where it is read as a stamp: seven parts with a colon
/// between each two, none of them empty but for the fifth, the second one a
/// number. Any other text says nothing.
pub open spec fn parsed(text: Seq<char>) -> Option<StampView> {
    let parts = split(text, ':');
    if malformed(parts) {
        None
    } else {
        match parsed_u32(parts[1]) {
            Some(claim) => Some(
                StampView {
                    version: parts[0],
                    claim: claim as nat,
                    ts: parts[2],
                    resource: parts[3],
                    ext: parts[4],
                    rand: parts[5],
                    counter: parts[6],
                },
            ),
            None => None,
        }
    }
}

/// Whether the parts are not those of a stamp: there are not seven of them,
/// or one that must not be empty is.
pub open spec fn malformed(parts: Seq<Seq<char>>) -> bool {
    parts.len() != 7 || exists|i: int| 0 <= i < parts.len() && i != 4 && (#[trigger] parts[i]).len() == 0
}

/// What is said of a text that is no stamp.
pub open spec fn complaint(text: Seq<char>) -> Seq<char> {
    if malformed(split(text, ':')) {
        "Malformed stamp, expected 6 parts, got "@ + decimal(split(text, ':').len())
    } else {
        "Malformed stamp"@
    }
}

/// Whether a stamp can be read back from its text: no part of it holds a
/// colon, none but the extension is empty, and a `u32` can hold its claim.
pub open spec fn readable(stamp: StampView) -> bool {
    &&& stamp.claim <= u32::MAX
    &&& stamp.version.len() > 0 && free_of(stamp.version, ':')
    &&& stamp.ts.len() > 0 && free_of(stamp.ts, ':')
    &&& stamp.resource.len() > 0 && free_of(stamp.resource, ':')
    &&& free_of(stamp.ext, ':')
    &&& stamp.rand.len() > 0 && free_of(stamp.rand, ':')
    &&& stamp.counter.len() > 0 && free_of(stamp.counter, ':')
}

/// The text of a stamp is read back as the stamp: what `format` writes,
/// `try_from` reads as the stamp that was written, for every stamp whose
/// parts hold no colon and are not empty where they must not be.
pub proof fn law_format_round_trip(stamp: StampView)
    requires
        readable(stamp),
    ensures
        parsed(stamp.text()) == Some(stamp),
{
    let colon = seq![':'];
    let claim = decimal(stamp.claim);
    lemma_decimal_is_read_back(stamp.claim);
    let t1 = stamp.version;
    let t2 = t1 + colon + claim;
    let t3 = t2 + colon + stamp.ts;
    let t4 = t3 + colon + stamp.resource;
    let t5 = t4 + colon + stamp.ext;
    let t6 = t5 + colon + stamp.rand;
    let t7 = t6 + colon + stamp.counter;
    lemma_split_whole(t1, ':');
    lemma_split_more(t1, claim, ':');
    lemma_split_more(t2, stamp.ts, ':');
    lemma_split_more(t3, stamp.resource, ':');
    lemma_split_more(t4, stamp.ext, ':');
    lemma_split_more(t5, stamp.rand, ':');
    lemma_split_more(t6, stamp.counter, ':');
    assert(stamp.challenge() == t6);
    assert(stamp.text() == t7);
    let parts = split(t7, ':');
    assert(parts =~= seq![
        stamp.version,
        claim,
        stamp.ts,
        stamp.resource,
        stamp.ext,
        stamp.rand,
        stamp.counter,
    ]);
    assert(!malformed(parts)) by {
        assert forall|i: int| 0 <= i < parts.len() && i != 4 implies (#[trigger] parts[i]).len()
            != 0 by {}
    }
}

impl Stamp {
    /// Mints a stamp for a resource at a time that is written as `ts`, with
    /// the random part `rand`: tries the counters from 0 on and takes the
    /// first that solves the stamp. Gives up after `MAX_COUNTER`.
    pub fn mint_with(resource: String, bits: Option<u32>, ts: String, rand: String) -> (stamp:
        Option<Stamp>)
        ensures
            stamp_view(stamp) == minted(resource@, bits, ts@, rand@),
    {
        let claim = match bits {
            Some(bits) => bits,
            None => DEFAULT_BITS,
        };
        let digits = (claim / 4 + if claim % 4 == 0 {
            0
        } else {
            1
        }) as usize;
        let mut challenge = challenge_chars("1", claim, ts.as_str(), resource.as_str(), "", rand.as_str());
        challenge.push(':');
        let ghost asked = challenge_text("1"@, claim as nat, ts@, resource@, Seq::empty(), rand@);
        proof {
            reveal_strlit("");
            assert(""@ =~= Seq::<char>::empty());
            assert(challenge@ =~= asked + seq![':']);
        }
        let mut counter: u64 = 0;
        while counter <= MAX_COUNTER
            invariant
                counter <= MAX_COUNTER + 1,
                digits == digits_for(claim as nat),
                claim == (match bits {
                    Some(bits) => bits,
                    None => DEFAULT_BITS,
                }),
                asked == challenge_text("1"@, claim as nat, ts@, resource@, Seq::empty(), rand@),
                challenge@ == asked + seq![':'],
                first_solution(asked, digits as nat, 0) == first_solution(
                    asked,
                    digits as nat,
                    counter as nat,
                ),
            decreases MAX_COUNTER + 1 - counter,
        {
            let mut tried: Vec<char> = Vec::new();
            push_lower_hex(&mut tried, counter);
            let mut text = challenge.clone();
            push_all(&mut text, &tried);
            proof {
                assert(text@ =~= asked + seq![':'] + lower_hex(counter as nat));
            }
            let found = digest(string_of(&text).as_str().as_bytes());
            if has_zero_digits(&found, digits) {
                return Some(
                    Stamp {
                        version: String::from_str("1"),
                        claim,
                        ts,
                        resource,
                        ext: String::new(),
                        rand,
                        counter: string_of(&tried),
                    },
                );
            }
            counter += 1;
        }
        None
    }

    /// Mints a stamp for a resource now, by the system clock, with a random
    /// part of `SALT_LENGTH` characters: what `mint_with` makes of the time
    /// that the clock shows and of the characters that were drawn. None where
    /// the time cannot be written, or no counter solves the stamp.
    pub fn mint(resource: String, bits: Option<u32>) -> (stamp: Option<Stamp>)
        ensures
            exists|seconds: int, rand: Seq<char>|
                -SECONDS_LIMIT < seconds < SECONDS_LIMIT && rand.len() == SALT_LENGTH && (forall|
                    i: int,
                | 0 <= i < rand.len() ==> is_alphanumeric(#[trigger] rand[i])) && #[trigger] mint_outcome(
                    resource@,
                    bits,
                    seconds,
                    rand,
                    stamp_view(stamp),
                ),
    {
        let now = read_clock();
        let rand = random_alphanumeric(SALT_LENGTH);
        let ghost drawn = rand@;
        let ghost asked = resource@;
        let stamp = match format_time(now.seconds, TIME_FORMAT) {
            Some(ts) => Stamp::mint_with(resource, bits, ts, rand),
            None => None,
        };
        proof {
            assert(mint_outcome(asked, bits, now.seconds as int, drawn, stamp_view(stamp)));
        }
        stamp
    }

    /// Reads a stamp from its text. A text that is no stamp gets a complaint:
    /// one that says how many parts there are where the parts are not those
    /// of a stamp, and a shorter one where the second part is no number.
    pub fn try_from(value: &str) -> (result: Result<Stamp, String>)
        ensures
            match parsed(value@) {
                Some(stamp) => result is Ok && result->Ok_0@ == stamp,
                None => result is Err && result->Err_0@ == complaint(value@),
            },
    {
        let chars = chars_of(value);
        let parts = split_chars(&chars, ':');
        let ghost said = split(value@, ':');
        let mut well_formed = parts.len() == 7;
        let mut i: usize = 0;
        while i < parts.len()
            invariant
                i <= parts.len(),
                parts_of(parts@) == said,
                well_formed == (parts.len() == 7 && forall|k: int|
                    0 <= k < i && k != 4 ==> (#[trigger] said[k]).len() != 0),
            decreases parts.len() - i,
        {
            assert(said[i as int] == parts[i as int]@);
            if i != 4 && parts[i].len() == 0 {
                well_formed = false;
            }
            i += 1;
        }
        if !well_formed {
            let mut complaint: Vec<char> = Vec::new();
            push_str(&mut complaint, "Malformed stamp, expected 6 parts, got ");
            push_decimal(&mut complaint, parts.len() as u64);
            return Err(string_of(&complaint));
        }
        assert(!malformed(said));
        assert(said[0] == parts[0]@ && said[1] == parts[1]@ && said[2] == parts[2]@ && said[3]
            == parts[3]@ && said[4] == parts[4]@ && said[5] == parts[5]@ && said[6] == parts[6]@);
        let claim = match parse_u32(&parts[1]) {
            Some(claim) => claim,
            None => {
                return Err(String::from_str("Malformed stamp"));
            },
        };
        Ok(
            Stamp {
                version: string_of(&parts[0]),
                claim,
                ts: string_of(&parts[2]),
                resource: string_of(&parts[3]),
                ext: string_of(&parts[4]),
                rand: string_of(&parts[5]),
                counter: string_of(&parts[6]),
            },
        )
    }
}

} // verus!
