//! The hashing function of a policy: one of the algorithms, with its
//! settings.

use crate::pass::argon2::{
    argon2_default, argon2_hash, argon2_in_range, argon2_params, argon2_ready, argon2_roomy,
    argon2_set,
    lemma_argon2_params_valid, lemma_argon2_set_in_range, lemma_argon2_set_own, Argon2Config,
    Argon2Hash,
};
use crate::pass::params::{distinct_keys, Pairs, ParamMap, Text};
use crate::pass::pbkdf2::{
    lemma_pbkdf2_params_valid, lemma_pbkdf2_set_in_range, lemma_pbkdf2_set_own, pbkdf2_default,
    pbkdf2_hash, pbkdf2_in_range, pbkdf2_params, pbkdf2_set, Pbkdf2Config, Pbkdf2Hash,
};
use crate::pass::round_trip::valid_pairs;
use crate::pass::{argon2, norm_text, pbkdf2, Algorithm, ErrorCode, Normalization};
use vstd::prelude::*;

verus! {

/// The settings of a hashing function.
pub enum EngineConfig {
    Argon2(Argon2Config),
    Pbkdf2(Pbkdf2Config),
}

/// A hashing function: the algorithm and its settings.
pub enum HashFunc {
    Argon2(Argon2Hash),
    Pbkdf2(Pbkdf2Hash),
}

impl View for HashFunc {
    type V = EngineConfig;

    open spec fn view(&self) -> EngineConfig {
        match self {
            HashFunc::Argon2(f) => EngineConfig::Argon2(f@),
            HashFunc::Pbkdf2(f) => EngineConfig::Pbkdf2(f@),
        }
    }
}

/// The settings of a new function of the algorithm.
pub open spec fn engine_default(algorithm: Algorithm) -> EngineConfig {
    match algorithm {
        Algorithm::Argon2 => EngineConfig::Argon2(argon2_default()),
        Algorithm::Pbkdf2 => EngineConfig::Pbkdf2(pbkdf2_default()),
    }
}

/// The algorithm of the settings.
pub open spec fn engine_algorithm(c: EngineConfig) -> Algorithm {
    match c {
        EngineConfig::Argon2(_) => Algorithm::Argon2,
        EngineConfig::Pbkdf2(_) => Algorithm::Pbkdf2,
    }
}

/// The identifier of an algorithm in a record.
pub open spec fn algorithm_id(algorithm: Algorithm) -> Text {
    match algorithm {
        Algorithm::Argon2 => "argon2"@,
        Algorithm::Pbkdf2 => "pbkdf2"@,
    }
}

/// The settings with the normalization `norm`.
pub open spec fn engine_with_norm(c: EngineConfig, norm: Normalization) -> EngineConfig {
    match c {
        EngineConfig::Argon2(a) => EngineConfig::Argon2(Argon2Config { norm, ..a }),
        EngineConfig::Pbkdf2(p) => EngineConfig::Pbkdf2(Pbkdf2Config { norm, ..p }),
    }
}

/// The settings after the parameter `name` is set to `value`, or nothing
/// where the algorithm refuses it.
pub open spec fn engine_set(c: EngineConfig, name: Text, value: Text) -> Option<EngineConfig> {
    match c {
        EngineConfig::Argon2(a) => match argon2_set(a, name, value) {
            Some(b) => Some(EngineConfig::Argon2(b)),
            None => None,
        },
        EngineConfig::Pbkdf2(p) => match pbkdf2_set(p, name, value) {
            Some(q) => Some(EngineConfig::Pbkdf2(q)),
            None => None,
        },
    }
}

/// The settings after all of `params` are set, one after the other, or
/// nothing where the algorithm refuses one of them.
pub open spec fn engine_set_all(c: EngineConfig, params: Pairs) -> Option<EngineConfig>
    decreases params.len(),
{
    if params.len() == 0 {
        Some(c)
    } else {
        match engine_set_all(c, params.drop_last()) {
            Some(d) => engine_set(d, params.last().0, params.last().1),
            None => None,
        }
    }
}

/// The least and the greatest length of a salt that the algorithm takes.
pub open spec fn salt_len_fits(algorithm: Algorithm, len: nat) -> bool {
    match algorithm {
        Algorithm::Argon2 => argon2::MIN_SALT_LENGTH <= len <= argon2::MAX_SALT_LENGTH,
        Algorithm::Pbkdf2 => pbkdf2::MIN_SALT_LENGTH <= len <= pbkdf2::MAX_SALT_LENGTH,
    }
}

/// The settings with the salt `salt`, or nothing where the algorithm does
/// not take a salt of that length.
pub open spec fn engine_with_salt(c: EngineConfig, salt: Seq<u8>) -> Option<EngineConfig> {
    if salt_len_fits(engine_algorithm(c), salt.len()) {
        Some(
            match c {
                EngineConfig::Argon2(a) => EngineConfig::Argon2(Argon2Config { salt, ..a }),
                EngineConfig::Pbkdf2(p) => EngineConfig::Pbkdf2(Pbkdf2Config { salt, ..p }),
            },
        )
    } else {
        None
    }
}

/// The salt of the settings.
pub open spec fn engine_salt(c: EngineConfig) -> Seq<u8> {
    match c {
        EngineConfig::Argon2(a) => a.salt,
        EngineConfig::Pbkdf2(p) => p.salt,
    }
}

/// The normalization that the settings name.
pub open spec fn engine_norm(c: EngineConfig) -> Normalization {
    match c {
        EngineConfig::Argon2(a) => a.norm,
        EngineConfig::Pbkdf2(p) => p.norm,
    }
}

/// The parameters that describe the settings in a record.
pub open spec fn engine_params(c: EngineConfig) -> Pairs {
    match c {
        EngineConfig::Argon2(a) => argon2_params(a),
        EngineConfig::Pbkdf2(p) => pbkdf2_params(p),
    }
}

/// The hash of `input` under the settings, or nothing where the algorithm
/// refuses the settings.
pub open spec fn engine_hash(c: EngineConfig, input: Seq<u8>) -> Option<Seq<u8>> {
    match c {
        EngineConfig::Argon2(a) => argon2_hash(a, input),
        EngineConfig::Pbkdf2(p) => Some(pbkdf2_hash(p, input)),
    }
}

/// Settings with which the algorithm hashes an input of `input_len` bytes
/// for certain.
pub open spec fn engine_ready(c: EngineConfig, input_len: nat) -> bool {
    match c {
        EngineConfig::Argon2(a) => argon2_ready(a, input_len),
        EngineConfig::Pbkdf2(_) => true,
    }
}

/// Settings with which the algorithm hashes an input of `input_len` bytes
/// for certain, once it has a salt that it takes.
pub open spec fn engine_roomy(c: EngineConfig, input_len: nat) -> bool {
    match c {
        EngineConfig::Argon2(a) => argon2_roomy(a, input_len),
        EngineConfig::Pbkdf2(_) => true,
    }
}

/// Settings that the setters can reach.
pub open spec fn engine_in_range(c: EngineConfig) -> bool {
    match c {
        EngineConfig::Argon2(a) => argon2_in_range(a),
        EngineConfig::Pbkdf2(p) => pbkdf2_in_range(p),
    }
}

impl HashFunc {
    /// A function of the algorithm with its default settings and no salt.
    pub fn new(algorithm: Algorithm) -> (r: HashFunc)
        ensures
            r@ == engine_default(algorithm),
    {
        match algorithm {
            Algorithm::Argon2 => HashFunc::Argon2(Argon2Hash::new()),
            Algorithm::Pbkdf2 => HashFunc::Pbkdf2(Pbkdf2Hash::new()),
        }
    }

    /// The identifier of the algorithm in a record.
    pub fn get_id(&self) -> (r: String)
        ensures
            r@ == algorithm_id(engine_algorithm(self@)),
    {
        match self {
            HashFunc::Argon2(f) => f.get_id(),
            HashFunc::Pbkdf2(f) => f.get_id(),
        }
    }

    /// The parameters that describe the settings in a record.
    pub fn get_parameters(&self) -> (r: ParamMap)
        ensures
            r@ == engine_params(self@),
    {
        match self {
            HashFunc::Argon2(f) => f.get_parameters(),
            HashFunc::Pbkdf2(f) => f.get_parameters(),
        }
    }

    /// Sets the parameter `name` to `value`; fails, and changes nothing,
    /// where the algorithm refuses it.
    pub fn set_parameter(&mut self, name: &str, value: &str) -> (r: Result<(), ErrorCode>)
        ensures
            engine_set(old(self)@, name@, value@) is Some ==> r is Ok,
            r is Ok ==> engine_set(old(self)@, name@, value@) == Some(final(self)@),
            r is Err ==> r == Err::<(), ErrorCode>(ErrorCode::InvalidPasswordFormat),
            r is Err ==> final(self)@ == old(self)@,
    {
        match self {
            HashFunc::Argon2(f) => f.set_parameter(name, value),
            HashFunc::Pbkdf2(f) => f.set_parameter(name, value),
        }
    }

    /// The salt.
    pub fn get_salt(&self) -> (r: Option<Vec<u8>>)
        ensures
            r is Some,
            r->0@ == engine_salt(self@),
            r->0@.len() <= 256,
    {
        match self {
            HashFunc::Argon2(f) => {
                proof {
                    use_type_invariant(f);
                }
                f.get_salt()
            },
            HashFunc::Pbkdf2(f) => {
                proof {
                    use_type_invariant(f);
                }
                f.get_salt()
            },
        }
    }

    /// Sets the salt; fails, and changes nothing, where the algorithm does
    /// not take a salt of that length.
    pub fn set_salt(&mut self, salt: Vec<u8>) -> (r: Result<(), ErrorCode>)
        ensures
            engine_with_salt(old(self)@, salt@) is Some ==> r is Ok,
            r is Ok ==> engine_with_salt(old(self)@, salt@) == Some(final(self)@),
            r is Err ==> r == Err::<(), ErrorCode>(ErrorCode::InvalidPasswordFormat),
            r is Err ==> final(self)@ == old(self)@,
    {
        match self {
            HashFunc::Argon2(f) => f.set_salt(salt),
            HashFunc::Pbkdf2(f) => f.set_salt(salt),
        }
    }

    /// Sets the normalization that the record will name.
    pub fn set_normalization(&mut self, norm: Normalization) -> (r: Result<(), ErrorCode>)
        ensures
            r is Ok,
            final(self)@ == engine_with_norm(old(self)@, norm),
    {
        match self {
            HashFunc::Argon2(f) => f.set_normalization(norm),
            HashFunc::Pbkdf2(f) => f.set_normalization(norm),
        }
    }

    /// Hashes `input`, or returns nothing where the algorithm refuses the
    /// settings. A hash has 20 to 256 bytes.
    pub fn hash(&self, input: &[u8]) -> (r: Option<Vec<u8>>)
        ensures
            r is Some <==> engine_hash(self@, input@) is Some,
            r is Some ==> r->0@ == engine_hash(self@, input@)->0,
            r is Some ==> 20 <= r->0@.len() <= 256,
            engine_ready(self@, input@.len()) ==> r is Some,
    {
        match self {
            HashFunc::Argon2(f) => f.hash(input),
            HashFunc::Pbkdf2(f) => Some(f.hash(input)),
        }
    }
}

/// Setting parameters changes neither the algorithm, nor the
/// normalization, nor the salt.
pub proof fn lemma_set_all_keeps(c: EngineConfig, params: Pairs)
    requires
        engine_set_all(c, params) is Some,
    ensures
        engine_algorithm(engine_set_all(c, params)->0) == engine_algorithm(c),
        engine_salt(engine_set_all(c, params)->0) == engine_salt(c),
        engine_norm(engine_set_all(c, params)->0) == engine_norm(c),
    decreases params.len(),
{
    if params.len() > 0 {
        lemma_set_all_keeps(c, params.drop_last());
    }
}

/// The function made for an algorithm, a normalization, parameters and a
/// salt is of that algorithm, names that normalization and has that salt.
pub proof fn lemma_configured(
    algorithm: Algorithm,
    norm: Normalization,
    params: Pairs,
    salt: Seq<u8>,
)
    ensures
        match engine_set_all(engine_with_norm(engine_default(algorithm), norm), params) {
            Some(c) => match engine_with_salt(c, salt) {
                Some(d) => engine_algorithm(d) == algorithm && engine_salt(d) == salt
                    && engine_norm(d) == norm && salt_len_fits(algorithm, salt.len()),
                None => true,
            },
            None => true,
        },
{
    let start = engine_with_norm(engine_default(algorithm), norm);
    if engine_set_all(start, params) is Some {
        lemma_set_all_keeps(start, params);
    }
}

/// Once the algorithm has refused a parameter, it is refused whatever
/// follows.
pub proof fn lemma_set_all_fails(c: EngineConfig, params: Pairs, n: int)
    requires
        0 <= n <= params.len(),
        engine_set_all(c, params.take(n)) is None,
    ensures
        engine_set_all(c, params) is None,
    decreases params.len() - n,
{
    if n < params.len() {
        assert(params.take(n + 1).drop_last() =~= params.take(n));
        lemma_set_all_fails(c, params, n + 1);
    } else {
        assert(params.take(n) =~= params);
    }
}

/// Setting one parameter more, after others.
pub proof fn lemma_set_all_push(c: EngineConfig, params: Pairs, name: Text, value: Text)
    ensures
        engine_set_all(c, params.push((name, value))) == match engine_set_all(c, params) {
            Some(d) => engine_set(d, name, value),
            None => None,
        },
{
    assert(params.push((name, value)).drop_last() =~= params);
}

/// Settings in range stay in range when parameters are set.
pub proof fn lemma_set_all_in_range(c: EngineConfig, params: Pairs)
    requires
        engine_in_range(c),
        engine_set_all(c, params) is Some,
    ensures
        engine_in_range(engine_set_all(c, params)->0),
    decreases params.len(),
{
    if params.len() > 0 {
        lemma_set_all_in_range(c, params.drop_last());
        let d = engine_set_all(c, params.drop_last())->0;
        match d {
            EngineConfig::Argon2(a) => {
                lemma_argon2_set_in_range(a, params.last().0, params.last().1);
            },
            EngineConfig::Pbkdf2(p) => {
                lemma_pbkdf2_set_in_range(p, params.last().0, params.last().1);
            },
        }
    }
}

/// The parameters that describe settings, without the normalization: they
/// are what a policy keeps of a record for its algorithm.
pub open spec fn own_params(c: EngineConfig) -> Pairs {
    engine_params(c).skip(1)
}

/// The parameters that describe settings are valid parameters with
/// distinct names, and the normalization comes first.
pub proof fn lemma_engine_params(c: EngineConfig)
    ensures
        valid_pairs(engine_params(c)),
        distinct_keys(engine_params(c)),
        engine_params(c).len() >= 1,
        engine_params(c)[0] == ("norm"@, norm_text(engine_norm(c))),
{
    match c {
        EngineConfig::Argon2(a) => {
            lemma_argon2_params_valid(a);
        },
        EngineConfig::Pbkdf2(p) => {
            lemma_pbkdf2_params_valid(p);
        },
    }
}

/// A function that is given the parameters that describe settings in
/// range gets these settings: the parameters say all of the settings but
/// the salt.
pub proof fn lemma_reads_own(start: EngineConfig, c: EngineConfig)
    requires
        engine_in_range(c),
        engine_algorithm(start) == engine_algorithm(c),
        engine_norm(start) == engine_norm(c),
        engine_salt(start) == engine_salt(c),
    ensures
        engine_set_all(start, own_params(c)) == Some(c),
{
    let own = own_params(c);
    let given0 = Pairs::empty();
    match c {
        EngineConfig::Argon2(a) => {
            let s0 = start->Argon2_0;
            let given1 = given0.push(own[0]);
            let given2 = given1.push(own[1]);
            let given3 = given2.push(own[2]);
            let given4 = given3.push(own[3]);
            assert(given4 =~= own);
            let s1 = Argon2Config { passes: a.passes, ..s0 };
            let s2 = Argon2Config { mem_cost: a.mem_cost, ..s1 };
            let s3 = Argon2Config { lanes: a.lanes, ..s2 };
            let s4 = Argon2Config { output_len: a.output_len, ..s3 };
            lemma_argon2_set_own(s0, a);
            lemma_argon2_set_own(s1, a);
            lemma_argon2_set_own(s2, a);
            lemma_argon2_set_own(s3, a);
            lemma_set_all_push(start, given0, own[0].0, own[0].1);
            lemma_set_all_push(start, given1, own[1].0, own[1].1);
            lemma_set_all_push(start, given2, own[2].0, own[2].1);
            lemma_set_all_push(start, given3, own[3].0, own[3].1);
            assert(engine_set_all(start, given1) == Some(EngineConfig::Argon2(s1)));
            assert(engine_set_all(start, given2) == Some(EngineConfig::Argon2(s2)));
            assert(engine_set_all(start, given3) == Some(EngineConfig::Argon2(s3)));
            assert(engine_set_all(start, given4) == Some(EngineConfig::Argon2(s4)));
            assert(s4 == a);
        },
        EngineConfig::Pbkdf2(p) => {
            let s0 = start->Pbkdf2_0;
            let given1 = given0.push(own[0]);
            let given2 = given1.push(own[1]);
            assert(given2 =~= own);
            let s1 = Pbkdf2Config { nb_iter: p.nb_iter, ..s0 };
            let s2 = Pbkdf2Config { hash_function: p.hash_function, ..s1 };
            lemma_pbkdf2_set_own(s0, p);
            lemma_pbkdf2_set_own(s1, p);
            lemma_set_all_push(start, given0, own[0].0, own[0].1);
            lemma_set_all_push(start, given1, own[1].0, own[1].1);
            assert(engine_set_all(start, given1) == Some(EngineConfig::Pbkdf2(s1)));
            assert(engine_set_all(start, given2) == Some(EngineConfig::Pbkdf2(s2)));
            assert(s2 == p);
        },
    }
}

} // verus!
