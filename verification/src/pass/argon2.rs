//! The Argon2 hashing function and its parameters.
//!
//! The parameters are `passes`, `mem` (the memory is 2^mem KiB), `lanes` and
//! `len` (the length of the hash in bytes). The hash itself is computed by
//! the `rust-argon2` crate.

use crate::pass::decimal::{
    decimal_string, decimal_text, decimal_value, is_digit, lemma_decimal_round_trip, parse_u32,
};
use crate::pass::params::{distinct_keys, lemma_put_fresh, Pairs, ParamMap, Text};
use crate::pass::phc::{all_in_class, in_class, CharClass};
use crate::pass::round_trip::{valid_pair, valid_pairs};
use crate::pass::{lemma_norm_text, norm_string, norm_text, ErrorCode, Normalization};
use crate::text::str_eq;
use vstd::prelude::*;
use vstd::string::*;

verus! {

/// The least length of a salt, in bytes.
pub const MIN_SALT_LENGTH: usize = 8;

/// The greatest length of a salt, in bytes.
pub const MAX_SALT_LENGTH: usize = 256;

/// The number of passes over the memory.
pub const DEFAULT_PASSES: u32 = 3;

/// The least number of passes.
pub const MIN_PASSES: u32 = 1;

/// The greatest number of passes.
pub const MAX_PASSES: u32 = 1024;

/// The memory cost: the memory is 2 to this power, in KiB.
pub const DEFAULT_MEM_COST: u32 = 12;

/// The least memory cost.
pub const MIN_MEM_COST: u32 = 7;

/// The greatest memory cost.
pub const MAX_MEM_COST: u32 = 18;

/// The number of lanes.
pub const DEFAULT_LANES: u32 = 4;

/// The least number of lanes.
pub const MIN_LANES: u32 = 1;

/// The greatest number of lanes.
pub const MAX_LANES: u32 = 128;

/// The length of a hash, in bytes.
pub const DEFAULT_OUTPUT_LEN: u32 = 128;

/// The least length of a hash.
pub const MIN_OUTPUT_LEN: u32 = 32;

/// The greatest length of a hash.
pub const MAX_OUTPUT_LEN: u32 = 256;

/// The Argon2i hash (version 1.3, no secret, no associated data) of
/// `password` with `salt`: `len` bytes after `passes` passes over `mem_kib`
/// KiB in `lanes` lanes, or nothing where the parameters are refused.
pub uninterp spec fn argon2i_output(
    password: Seq<u8>,
    salt: Seq<u8>,
    passes: u32,
    mem_kib: u32,
    lanes: u32,
    len: u32,
) -> Option<Seq<u8>>;

/// What `argon2::hash_raw` asks of its arguments before it hashes: at least
/// one lane and one pass, 8 KiB of memory for each lane, a salt of 8 bytes
/// and a hash of 4, and no more of anything than the crate can count.
pub open spec fn argon2_accepts(
    password_len: nat,
    salt_len: nat,
    passes: u32,
    mem_kib: u32,
    lanes: u32,
    len: u32,
) -> bool {
    &&& 1 <= lanes <= 0xFF_FFFF
    &&& 8 * lanes <= mem_kib <= 0x20_0000
    &&& 1 <= passes
    &&& password_len <= 0xFFFF_FFFF
    &&& 8 <= salt_len <= 0xFFFF_FFFF
    &&& 4 <= len
}

/// `argon2::hash_raw` with a configuration of variant Argon2i, version 1.3,
/// one thread, no secret and no associated data. The crate checks the
/// parameters, and returns an error or a hash of `len` bytes; parameters
/// within the bounds of `argon2_accepts` pass its checks. The memory is
/// held to 256 MiB, which the crate allocates at once.
#[verifier::external_body]
fn argon2_raw(password: &[u8], salt: &[u8], passes: u32, mem_kib: u32, lanes: u32, len: u32) -> (r:
    Option<Vec<u8>>)
    requires
        mem_kib <= 0x4_0000,
    ensures
        r is Some <==> argon2i_output(password@, salt@, passes, mem_kib, lanes, len) is Some,
        r is Some ==> r->0@ == argon2i_output(password@, salt@, passes, mem_kib, lanes, len)->0,
        r is Some ==> r->0@.len() == len,
        argon2_accepts(password@.len(), salt@.len(), passes, mem_kib, lanes, len) ==> r is Some,
{
    let config = argon2::Config {
        ad: &[],
        hash_length: len,
        lanes,
        mem_cost: mem_kib,
        secret: &[],
        thread_mode: argon2::ThreadMode::Sequential,
        time_cost: passes,
        variant: argon2::Variant::Argon2i,
        version: argon2::Version::Version13,
    };
    argon2::hash_raw(password, salt, &config).ok()
}

/// The settings of an Argon2 hashing function.
pub struct Argon2Config {
    pub passes: u32,
    pub mem_cost: u32,
    pub lanes: u32,
    pub output_len: u32,
    pub salt: Seq<u8>,
    pub norm: Normalization,
}

/// An Argon2 hashing function.
pub struct Argon2Hash {
    passes: u32,
    mem_cost: u32,
    lanes: u32,
    output_len: u32,
    salt: Vec<u8>,
    norm: Normalization,
}

impl View for Argon2Hash {
    type V = Argon2Config;

    closed spec fn view(&self) -> Argon2Config {
        Argon2Config {
            passes: self.passes,
            mem_cost: self.mem_cost,
            lanes: self.lanes,
            output_len: self.output_len,
            salt: self.salt@,
            norm: self.norm,
        }
    }
}

/// Settings that the setters can reach: every parameter in its range, and
/// a salt of at most 256 bytes.
pub open spec fn argon2_in_range(c: Argon2Config) -> bool {
    &&& MIN_PASSES <= c.passes <= MAX_PASSES
    &&& MIN_MEM_COST <= c.mem_cost <= MAX_MEM_COST
    &&& MIN_LANES <= c.lanes <= MAX_LANES
    &&& MIN_OUTPUT_LEN <= c.output_len <= MAX_OUTPUT_LEN
    &&& c.salt.len() <= MAX_SALT_LENGTH
}

/// The settings of a new function: the defaults, and no salt yet.
pub open spec fn argon2_default() -> Argon2Config {
    Argon2Config {
        passes: DEFAULT_PASSES,
        mem_cost: DEFAULT_MEM_COST,
        lanes: DEFAULT_LANES,
        output_len: DEFAULT_OUTPUT_LEN,
        salt: Seq::empty(),
        norm: Normalization::Nfkc,
    }
}

/// The number that `value` spells, if it lies between `lo` and `hi`.
pub open spec fn ranged(value: Text, lo: u32, hi: u32) -> Option<u32> {
    match decimal_value(value) {
        Some(v) => if lo <= v <= hi {
            Some(v as u32)
        } else {
            None
        },
        None => None,
    }
}

/// Reads a number that must lie between `lo` and `hi`.
pub fn parse_ranged(value: &str, lo: u32, hi: u32) -> (r: Option<u32>)
    ensures
        r == ranged(value@, lo, hi),
{
    match parse_u32(value) {
        Some(v) => if lo <= v && v <= hi {
            Some(v)
        } else {
            None
        },
        None => None,
    }
}

/// The settings after the parameter `name` is set to `value`, or nothing
/// where the name is unknown or the value is not a number in its range.
pub open spec fn argon2_set(c: Argon2Config, name: Text, value: Text) -> Option<Argon2Config> {
    if name == "passes"@ {
        match ranged(value, MIN_PASSES, MAX_PASSES) {
            Some(v) => Some(Argon2Config { passes: v, ..c }),
            None => None,
        }
    } else if name == "mem"@ {
        match ranged(value, MIN_MEM_COST, MAX_MEM_COST) {
            Some(v) => Some(Argon2Config { mem_cost: v, ..c }),
            None => None,
        }
    } else if name == "lanes"@ {
        match ranged(value, MIN_LANES, MAX_LANES) {
            Some(v) => Some(Argon2Config { lanes: v, ..c }),
            None => None,
        }
    } else if name == "len"@ {
        match ranged(value, MIN_OUTPUT_LEN, MAX_OUTPUT_LEN) {
            Some(v) => Some(Argon2Config { output_len: v, ..c }),
            None => None,
        }
    } else {
        None
    }
}

/// The parameters that describe the settings in a record.
pub open spec fn argon2_params(c: Argon2Config) -> Pairs {
    seq![
        ("norm"@, norm_text(c.norm)),
        ("passes"@, decimal_text(c.passes as nat)),
        ("mem"@, decimal_text(c.mem_cost as nat)),
        ("lanes"@, decimal_text(c.lanes as nat)),
        ("len"@, decimal_text(c.output_len as nat)),
    ]
}

/// The memory in KiB for a memory cost.
pub open spec fn mem_kib(mem_cost: u32) -> u32 {
    if mem_cost < 32 {
        1u32 << mem_cost
    } else {
        0
    }
}

/// The memory for a cost in range is between 128 KiB and 256 MiB.
pub proof fn lemma_mem_kib(mem_cost: u32)
    requires
        MIN_MEM_COST <= mem_cost <= MAX_MEM_COST,
    ensures
        128 <= mem_kib(mem_cost) <= 0x4_0000,
        mem_kib(mem_cost) == 1u32 << mem_cost,
{
    assert(7 <= mem_cost <= 18 ==> 128 <= (1u32 << mem_cost) <= 0x4_0000) by (bit_vector);
}

/// Settings that give each lane its 8 KiB of memory, for an input that is
/// not longer than 32 bits can count.
pub open spec fn argon2_roomy(c: Argon2Config, input_len: nat) -> bool {
    8 * c.lanes <= mem_kib(c.mem_cost) && input_len <= 0xFFFF_FFFF
}

/// Settings with which Argon2 hashes an input of `input_len` bytes for
/// certain: they are roomy, and the salt has its 8 bytes.
pub open spec fn argon2_ready(c: Argon2Config, input_len: nat) -> bool {
    argon2_roomy(c, input_len) && MIN_SALT_LENGTH <= c.salt.len()
}

/// The default settings are roomy.
pub proof fn lemma_argon2_default_roomy(input_len: nat)
    requires
        input_len <= 0xFFFF_FFFF,
    ensures
        argon2_roomy(argon2_default(), input_len),
{
    assert(1u32 << 12u32 == 4096u32) by (bit_vector);
}

/// The hash of `input` under the settings `c`.
pub open spec fn argon2_hash(c: Argon2Config, input: Seq<u8>) -> Option<Seq<u8>> {
    argon2i_output(input, c.salt, c.passes, mem_kib(c.mem_cost), c.lanes, c.output_len)
}

/// The names of the parameters differ from each other.
pub proof fn lemma_argon2_names()
    ensures
        "norm"@ != "passes"@ && "norm"@ != "mem"@ && "norm"@ != "lanes"@ && "norm"@ != "len"@,
        "passes"@ != "mem"@ && "passes"@ != "lanes"@ && "passes"@ != "len"@,
        "mem"@ != "lanes"@ && "mem"@ != "len"@ && "lanes"@ != "len"@,
{
    reveal_strlit("norm");
    reveal_strlit("passes");
    reveal_strlit("mem");
    reveal_strlit("lanes");
    reveal_strlit("len");
    assert("norm"@.len() == 4 && "passes"@.len() == 6 && "mem"@.len() == 3 && "lanes"@.len() == 5
        && "len"@.len() == 3);
    assert("mem"@[0] == 'm' && "len"@[0] == 'l');
}

/// A number in a range is read back from its text.
pub proof fn lemma_ranged_text(n: u32, lo: u32, hi: u32)
    requires
        lo <= n <= hi,
    ensures
        ranged(decimal_text(n as nat), lo, hi) == Some(n),
{
    lemma_decimal_round_trip(n as nat);
}

/// The text of a number is a parameter value.
pub proof fn lemma_decimal_is_value(n: nat)
    ensures
        decimal_text(n).len() > 0,
        all_in_class(CharClass::ParamValue, decimal_text(n)),
{
    lemma_decimal_round_trip(n);
    assert forall|i: int| 0 <= i < decimal_text(n).len() implies in_class(
        CharClass::ParamValue,
        #[trigger] decimal_text(n)[i],
    ) by {
        assert(is_digit(decimal_text(n)[i]));
    }
}

/// The parameters that describe settings are valid parameters with
/// distinct names.
pub proof fn lemma_argon2_params_valid(a: Argon2Config)
    ensures
        valid_pairs(argon2_params(a)),
        distinct_keys(argon2_params(a)),
{
    let p = argon2_params(a);
    lemma_argon2_names();
    lemma_norm_text(a.norm);
    lemma_decimal_is_value(a.passes as nat);
    lemma_decimal_is_value(a.mem_cost as nat);
    lemma_decimal_is_value(a.lanes as nat);
    lemma_decimal_is_value(a.output_len as nat);
    assert(valid_pair(p[0]) && valid_pair(p[1]) && valid_pair(p[2]) && valid_pair(p[3])
        && valid_pair(p[4])) by {
        reveal_strlit("norm");
        reveal_strlit("passes");
        reveal_strlit("mem");
        reveal_strlit("lanes");
        reveal_strlit("len");
        assert(all_in_class(CharClass::ParamName, "norm"@) && "norm"@.len() > 0);
        assert(all_in_class(CharClass::ParamName, "passes"@) && "passes"@.len() > 0);
        assert(all_in_class(CharClass::ParamName, "mem"@) && "mem"@.len() > 0);
        assert(all_in_class(CharClass::ParamName, "lanes"@) && "lanes"@.len() > 0);
        assert(all_in_class(CharClass::ParamName, "len"@) && "len"@.len() > 0);
    }
}

/// Settings in range stay in range when a parameter is set.
pub proof fn lemma_argon2_set_in_range(c: Argon2Config, name: Text, value: Text)
    requires
        argon2_in_range(c),
        argon2_set(c, name, value) is Some,
    ensures
        argon2_in_range(argon2_set(c, name, value)->0),
        argon2_set(c, name, value)->0.salt == c.salt,
        argon2_set(c, name, value)->0.norm == c.norm,
{
}

/// Each parameter that describes settings in range is taken when it is
/// set, and changes its own setting only.
pub proof fn lemma_argon2_set_own(cur: Argon2Config, a: Argon2Config)
    requires
        argon2_in_range(a),
    ensures
        argon2_set(cur, "passes"@, decimal_text(a.passes as nat)) == Some(
            Argon2Config { passes: a.passes, ..cur },
        ),
        argon2_set(cur, "mem"@, decimal_text(a.mem_cost as nat)) == Some(
            Argon2Config { mem_cost: a.mem_cost, ..cur },
        ),
        argon2_set(cur, "lanes"@, decimal_text(a.lanes as nat)) == Some(
            Argon2Config { lanes: a.lanes, ..cur },
        ),
        argon2_set(cur, "len"@, decimal_text(a.output_len as nat)) == Some(
            Argon2Config { output_len: a.output_len, ..cur },
        ),
{
    lemma_argon2_names();
    lemma_ranged_text(a.passes, MIN_PASSES, MAX_PASSES);
    lemma_ranged_text(a.mem_cost, MIN_MEM_COST, MAX_MEM_COST);
    lemma_ranged_text(a.lanes, MIN_LANES, MAX_LANES);
    lemma_ranged_text(a.output_len, MIN_OUTPUT_LEN, MAX_OUTPUT_LEN);
}

impl Argon2Hash {
    /// The invariant of the type: the settings are in range.
    #[verifier::type_invariant]
    pub open spec fn in_range(&self) -> bool {
        argon2_in_range(self@)
    }

    /// A function with the default settings and no salt.
    pub fn new() -> (r: Argon2Hash)
        ensures
            r@ == argon2_default(),
    {
        Argon2Hash {
            passes: DEFAULT_PASSES,
            mem_cost: DEFAULT_MEM_COST,
            lanes: DEFAULT_LANES,
            output_len: DEFAULT_OUTPUT_LEN,
            salt: Vec::new(),
            norm: Normalization::Nfkc,
        }
    }

    /// The identifier of the algorithm in a record.
    pub fn get_id(&self) -> (r: String)
        ensures
            r@ == "argon2"@,
    {
        String::from_str("argon2")
    }

    /// The parameters that describe the settings in a record.
    pub fn get_parameters(&self) -> (r: ParamMap)
        ensures
            r@ == argon2_params(self@),
    {
        let mut params = ParamMap::new();
        let ghost want = argon2_params(self@);
        params.insert(String::from_str("norm"), norm_string(self.norm));
        assert(params@ =~= want.take(1));
        proof {
            assert(params@[0] == want[0]);
            lemma_argon2_names();
            lemma_put_fresh(params@, "passes"@, want[1].1);
        }
        params.insert(String::from_str("passes"), decimal_string(self.passes as u64));
        assert(params@ =~= want.take(2));
        proof {
            assert(params@[0] == want[0]);
            assert(params@[1] == want[1]);
            lemma_argon2_names();
            lemma_put_fresh(params@, "mem"@, want[2].1);
        }
        params.insert(String::from_str("mem"), decimal_string(self.mem_cost as u64));
        assert(params@ =~= want.take(3));
        proof {
            assert(params@[0] == want[0]);
            assert(params@[1] == want[1]);
            assert(params@[2] == want[2]);
            lemma_argon2_names();
            lemma_put_fresh(params@, "lanes"@, want[3].1);
        }
        params.insert(String::from_str("lanes"), decimal_string(self.lanes as u64));
        assert(params@ =~= want.take(4));
        proof {
            assert(params@[0] == want[0]);
            assert(params@[1] == want[1]);
            assert(params@[2] == want[2]);
            assert(params@[3] == want[3]);
            lemma_argon2_names();
            lemma_put_fresh(params@, "len"@, want[4].1);
        }
        params.insert(String::from_str("len"), decimal_string(self.output_len as u64));
        assert(params@ =~= want);
        params
    }

    /// Sets the parameter `name` to `value`.
    ///
    /// Fails, and changes nothing, where the name is none of `passes`,
    /// `mem`, `lanes` and `len`, or the value is no number in its range.
    pub fn set_parameter(&mut self, name: &str, value: &str) -> (r: Result<(), ErrorCode>)
        ensures
            argon2_set(old(self)@, name@, value@) is Some ==> r is Ok,
            r is Ok ==> argon2_set(old(self)@, name@, value@) == Some(final(self)@),
            r is Err ==> r == Err::<(), ErrorCode>(ErrorCode::InvalidPasswordFormat),
            r is Err ==> final(self)@ == old(self)@,
    {
        proof {
            use_type_invariant(&*self);
        }
        if str_eq(name, "passes") {
            match parse_ranged(value, MIN_PASSES, MAX_PASSES) {
                Some(v) => {
                    self.passes = v;
                    Ok(())
                },
                None => Err(ErrorCode::InvalidPasswordFormat),
            }
        } else if str_eq(name, "mem") {
            match parse_ranged(value, MIN_MEM_COST, MAX_MEM_COST) {
                Some(v) => {
                    self.mem_cost = v;
                    Ok(())
                },
                None => Err(ErrorCode::InvalidPasswordFormat),
            }
        } else if str_eq(name, "lanes") {
            match parse_ranged(value, MIN_LANES, MAX_LANES) {
                Some(v) => {
                    self.lanes = v;
                    Ok(())
                },
                None => Err(ErrorCode::InvalidPasswordFormat),
            }
        } else if str_eq(name, "len") {
            match parse_ranged(value, MIN_OUTPUT_LEN, MAX_OUTPUT_LEN) {
                Some(v) => {
                    self.output_len = v;
                    Ok(())
                },
                None => Err(ErrorCode::InvalidPasswordFormat),
            }
        } else {
            Err(ErrorCode::InvalidPasswordFormat)
        }
    }

    /// The salt.
    pub fn get_salt(&self) -> (r: Option<Vec<u8>>)
        ensures
            r is Some,
            r->0@ == self@.salt,
    {
        Some(self.salt.clone())
    }

    /// Sets the salt, which must have 8 to 256 bytes.
    pub fn set_salt(&mut self, salt: Vec<u8>) -> (r: Result<(), ErrorCode>)
        ensures
            r is Ok <==> MIN_SALT_LENGTH <= salt@.len() <= MAX_SALT_LENGTH,
            r is Ok ==> final(self)@ == (Argon2Config { salt: salt@, ..old(self)@ }),
            r is Err ==> r == Err::<(), ErrorCode>(ErrorCode::InvalidPasswordFormat),
            r is Err ==> final(self)@ == old(self)@,
    {
        proof {
            use_type_invariant(&*self);
        }
        if salt.len() >= MIN_SALT_LENGTH && salt.len() <= MAX_SALT_LENGTH {
            self.salt = salt;
            Ok(())
        } else {
            Err(ErrorCode::InvalidPasswordFormat)
        }
    }

    /// Sets the normalization that the record will name.
    pub fn set_normalization(&mut self, norm: Normalization) -> (r: Result<(), ErrorCode>)
        ensures
            r is Ok,
            final(self)@ == (Argon2Config { norm, ..old(self)@ }),
    {
        proof {
            use_type_invariant(&*self);
        }
        self.norm = norm;
        Ok(())
    }

    /// Hashes `input`, or returns nothing where Argon2 refuses the settings.
    ///
    /// Argon2 takes the settings where the memory is at least 8 KiB for each
    /// lane, the salt has at least 8 bytes and the input is not longer than
    /// 32 bits can count.
    pub fn hash(&self, input: &[u8]) -> (r: Option<Vec<u8>>)
        ensures
            r is Some <==> argon2_hash(self@, input@) is Some,
            r is Some ==> r->0@ == argon2_hash(self@, input@)->0,
            r is Some ==> MIN_OUTPUT_LEN <= r->0@.len() == self@.output_len <= MAX_OUTPUT_LEN,
            argon2_ready(self@, input@.len()) ==> r is Some,
    {
        proof {
            use_type_invariant(self);
            lemma_mem_kib(self.mem_cost);
        }
        let mem: u32 = 1u32 << self.mem_cost;
        argon2_raw(input, self.salt.as_slice(), self.passes, mem, self.lanes, self.output_len)
    }
}

} // verus!
