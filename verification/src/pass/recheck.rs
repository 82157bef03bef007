//! Checking a password against the record of its own hash.
//!
//! The record that hashing writes tells all of the policy and of the
//! hashing function. So the policy that is read from it hashes the password
//! to the same hash, and finds it valid.

use crate::pass::argon2::lemma_decimal_is_value;
use crate::pass::decimal::{decimal_text, lemma_decimal_round_trip};
use crate::pass::engine::{
    algorithm_id, engine_algorithm, engine_default, engine_norm, engine_params, engine_salt,
    engine_with_norm, lemma_configured, lemma_engine_params, lemma_reads_own,
    lemma_set_all_in_range, lemma_set_all_keeps, own_params, EngineConfig,
};
use crate::pass::normalize::normalized;
use crate::pass::params::{
    distinct_keys, is_fresh, lemma_key_index, lemma_put_fresh, lemma_without_at, without, Pairs,
    Text,
};
use crate::pass::phc::{all_in_class, CharClass};
use crate::pass::round_trip::{
    canonical, lemma_parse_serialize, valid_id, valid_pair, valid_pairs,
};
use crate::pass::policy::{
    algorithm_from_id, algorithm_params, configured, effective_salt, hash_record, hashed,
    lemma_policy_names, len_calc_from_text, len_calc_param, len_calc_text, norm_param,
    policy_from_text, policy_of_record, record_params, settings, usize_param, valid_with,
    PolicyModel,
};
use crate::pass::{lemma_norm_text, Algorithm, LengthCalculationMethod};
use vstd::prelude::*;
use vstd::string::*;

verus! {

/// The names of the algorithms' parameters are not names of parameters of
/// the policy.
pub proof fn lemma_names_apart()
    ensures
        "passes"@ != "len-calc"@ && "passes"@ != "pmin"@ && "passes"@ != "pmax"@ && "passes"@ != "ver"@,
        "mem"@ != "len-calc"@ && "mem"@ != "pmin"@ && "mem"@ != "pmax"@ && "mem"@ != "ver"@,
        "lanes"@ != "len-calc"@ && "lanes"@ != "pmin"@ && "lanes"@ != "pmax"@ && "lanes"@ != "ver"@,
        "len"@ != "len-calc"@ && "len"@ != "pmin"@ && "len"@ != "pmax"@ && "len"@ != "ver"@,
        "iter"@ != "len-calc"@ && "iter"@ != "pmin"@ && "iter"@ != "pmax"@ && "iter"@ != "ver"@,
        "hash"@ != "len-calc"@ && "hash"@ != "pmin"@ && "hash"@ != "pmax"@ && "hash"@ != "ver"@,
{
    reveal_strlit("passes");
    reveal_strlit("mem");
    reveal_strlit("lanes");
    reveal_strlit("len");
    reveal_strlit("iter");
    reveal_strlit("hash");
    reveal_strlit("len-calc");
    reveal_strlit("pmin");
    reveal_strlit("pmax");
    reveal_strlit("ver");
    assert("passes"@.len() == 6 && "passes"@[0] == 'p' && "passes"@[1] == 'a'
        && "passes"@[2] == 's' && "passes"@[3] == 's' && "passes"@[4] == 'e'
        && "passes"@[5] == 's');
    assert("mem"@.len() == 3 && "mem"@[0] == 'm' && "mem"@[1] == 'e' && "mem"@[2] == 'm');
    assert("lanes"@.len() == 5 && "lanes"@[0] == 'l' && "lanes"@[1] == 'a'
        && "lanes"@[2] == 'n' && "lanes"@[3] == 'e' && "lanes"@[4] == 's');
    assert("len"@.len() == 3 && "len"@[0] == 'l' && "len"@[1] == 'e' && "len"@[2] == 'n');
    assert("iter"@.len() == 4 && "iter"@[0] == 'i' && "iter"@[1] == 't' && "iter"@[2] == 'e'
        && "iter"@[3] == 'r');
    assert("hash"@.len() == 4 && "hash"@[0] == 'h' && "hash"@[1] == 'a' && "hash"@[2] == 's'
        && "hash"@[3] == 'h');
    assert("len-calc"@.len() == 8 && "len-calc"@[0] == 'l' && "len-calc"@[1] == 'e'
        && "len-calc"@[2] == 'n' && "len-calc"@[3] == '-' && "len-calc"@[4] == 'c'
        && "len-calc"@[5] == 'a' && "len-calc"@[6] == 'l' && "len-calc"@[7] == 'c');
    assert("pmin"@.len() == 4 && "pmin"@[0] == 'p' && "pmin"@[1] == 'm' && "pmin"@[2] == 'i'
        && "pmin"@[3] == 'n');
    assert("pmax"@.len() == 4 && "pmax"@[0] == 'p' && "pmax"@[1] == 'm' && "pmax"@[2] == 'a'
        && "pmax"@[3] == 'x');
    assert("ver"@.len() == 3 && "ver"@[0] == 'v' && "ver"@[1] == 'e' && "ver"@[2] == 'r');
}

/// The name of a way to count length is a parameter value, and names it.
pub proof fn lemma_len_calc_text(method: LengthCalculationMethod)
    ensures
        len_calc_from_text(len_calc_text(method)) == Some(method),
        len_calc_text(method).len() > 0,
        all_in_class(CharClass::ParamValue, len_calc_text(method)),
{
    reveal_strlit("bytes");
    reveal_strlit("chars");
    assert("bytes"@[0] == 'b' && "chars"@[0] == 'c');
    assert(all_in_class(CharClass::ParamValue, "bytes"@) && "bytes"@.len() > 0);
    assert(all_in_class(CharClass::ParamValue, "chars"@) && "chars"@.len() > 0);
}

/// The identifier of an algorithm is a valid identifier, and names it.
pub proof fn lemma_algorithm_id(algorithm: Algorithm)
    ensures
        algorithm_from_id(algorithm_id(algorithm)) == Some(algorithm),
        valid_id(algorithm_id(algorithm)),
{
    reveal_strlit("argon2");
    reveal_strlit("pbkdf2");
    assert("argon2"@[0] == 'a' && "pbkdf2"@[0] == 'p');
    assert(all_in_class(CharClass::Id, "argon2"@) && "argon2"@.len() > 0);
    assert(all_in_class(CharClass::Id, "pbkdf2"@) && "pbkdf2"@.len() > 0);
}

/// The parameters that tell the policy in the record of a hash.
pub open spec fn policy_pairs(h: PolicyModel) -> Pairs {
    seq![
        ("len-calc"@, len_calc_text(h.length_calculation)),
        ("pmin"@, decimal_text(h.min_len as nat)),
        ("pmax"@, decimal_text(h.max_len as nat)),
        ("ver"@, decimal_text(h.version as nat)),
    ]
}

/// The names of the parameters of the policy are valid.
proof fn lemma_policy_pairs_valid(h: PolicyModel)
    ensures
        valid_pairs(policy_pairs(h)),
{
    let p = policy_pairs(h);
    lemma_len_calc_text(h.length_calculation);
    lemma_decimal_is_value(h.min_len as nat);
    lemma_decimal_is_value(h.max_len as nat);
    lemma_decimal_is_value(h.version as nat);
    assert(valid_pair(p[0]) && valid_pair(p[1]) && valid_pair(p[2]) && valid_pair(p[3])) by {
        reveal_strlit("len-calc");
        reveal_strlit("pmin");
        reveal_strlit("pmax");
        reveal_strlit("ver");
        assert(all_in_class(CharClass::ParamName, "len-calc"@) && "len-calc"@.len() > 0);
        assert(all_in_class(CharClass::ParamName, "pmin"@) && "pmin"@.len() > 0);
        assert(all_in_class(CharClass::ParamName, "pmax"@) && "pmax"@.len() > 0);
        assert(all_in_class(CharClass::ParamName, "ver"@) && "ver"@.len() > 0);
    }
}

/// No parameter of a hashing function has the name of a parameter of the
/// policy.
proof fn lemma_engine_names_fresh(c: EngineConfig)
    ensures
        is_fresh(engine_params(c), "len-calc"@),
        is_fresh(engine_params(c), "pmin"@),
        is_fresh(engine_params(c), "pmax"@),
        is_fresh(engine_params(c), "ver"@),
{
    lemma_names_apart();
    lemma_policy_names();
    let p = engine_params(c);
    match c {
        EngineConfig::Argon2(a) => {
            assert(p[0].0 == "norm"@ && p[1].0 == "passes"@ && p[2].0 == "mem"@ && p[3].0
                == "lanes"@ && p[4].0 == "len"@);
        },
        EngineConfig::Pbkdf2(b) => {
            assert(p[0].0 == "norm"@ && p[1].0 == "iter"@ && p[2].0 == "hash"@);
        },
    }
}

/// The parameters of the record of a hash are those of the hashing
/// function, followed by those of the policy. They are valid, and their
/// names are distinct.
pub proof fn lemma_record_params(c: EngineConfig, h: PolicyModel)
    ensures
        record_params(c, h) == engine_params(c) + policy_pairs(h),
        valid_pairs(record_params(c, h)),
        distinct_keys(record_params(c, h)),
{
    let ep = engine_params(c);
    let pp = policy_pairs(h);
    lemma_engine_params(c);
    lemma_engine_names_fresh(c);
    lemma_policy_pairs_valid(h);
    lemma_policy_names();
    let r1 = ep.push(pp[0]);
    let r2 = r1.push(pp[1]);
    let r3 = r2.push(pp[2]);
    let r4 = r3.push(pp[3]);
    lemma_put_fresh(ep, pp[0].0, pp[0].1);
    assert(is_fresh(r1, "pmin"@)) by {
        assert forall|i: int| 0 <= i < r1.len() implies (#[trigger] r1[i]).0 != "pmin"@ by {
            if i < ep.len() {
                assert(r1[i] == ep[i]);
            }
        }
    }
    lemma_put_fresh(r1, pp[1].0, pp[1].1);
    assert(is_fresh(r2, "pmax"@)) by {
        assert forall|i: int| 0 <= i < r2.len() implies (#[trigger] r2[i]).0 != "pmax"@ by {
            if i < ep.len() {
                assert(r2[i] == ep[i]);
            }
        }
    }
    lemma_put_fresh(r2, pp[2].0, pp[2].1);
    assert(is_fresh(r3, "ver"@)) by {
        assert forall|i: int| 0 <= i < r3.len() implies (#[trigger] r3[i]).0 != "ver"@ by {
            if i < ep.len() {
                assert(r3[i] == ep[i]);
            }
        }
    }
    lemma_put_fresh(r3, pp[3].0, pp[3].1);
    assert(r4 =~= ep + pp);
    assert(record_params(c, h) == r4);
    assert forall|i: int| 0 <= i < r4.len() implies valid_pair(#[trigger] r4[i]) by {
        if i < ep.len() {
            assert(r4[i] == ep[i]);
        } else {
            assert(r4[i] == pp[i - ep.len()]);
        }
    }
    assert forall|i: int, j: int| 0 <= i < j < r4.len() implies (#[trigger] r4[i]).0 != (
    #[trigger] r4[j]).0 by {
        if j < ep.len() {
            assert(r4[i] == ep[i] && r4[j] == ep[j]);
        } else if i < ep.len() {
            assert(r4[i] == ep[i]);
            assert(r4[j] == pp[j - ep.len()]);
        } else {
            assert(r4[i] == pp[i - ep.len()]);
            assert(r4[j] == pp[j - ep.len()]);
        }
    }
}

/// The policy that hashing under `h` with the function `c` stores: `h`,
/// with the parameters that describe `c` and with the salt and the hash as
/// references.
pub open spec fn stored_policy(c: EngineConfig, h: PolicyModel, raw: Seq<u8>) -> PolicyModel {
    PolicyModel {
        parameters: own_params(c),
        ref_salt: Some(engine_salt(c)),
        ref_hash: Some(raw),
        salt_len: engine_salt(c).len() as usize,
        ..h
    }
}

/// A number is read back from the parameter that tells it.
proof fn lemma_usize_param(p: Pairs, key: Text, i: int, n: usize, default: usize)
    requires
        distinct_keys(p),
        0 <= i < p.len(),
        p[i] == (key, decimal_text(n as nat)),
    ensures
        usize_param(p, key, default) == Some(n),
{
    lemma_key_index(p, key, i);
    lemma_decimal_round_trip(n as nat);
}

/// What is left of the parameters of the record of a hash when those of
/// the policy are taken out is for the algorithm: the parameters that
/// describe the hashing function.
proof fn lemma_algorithm_params(c: EngineConfig, h: PolicyModel)
    ensures
        algorithm_params(record_params(c, h)) == own_params(c),
{
    let ep = engine_params(c);
    let pp = policy_pairs(h);
    let own = own_params(c);
    let rp = record_params(c, h);
    lemma_record_params(c, h);
    lemma_engine_params(c);
    let n = own.len() as int;
    let q1 = own + pp;
    let q2 = own + pp.take(3);
    let q3 = own + seq![pp[0], pp[2]];
    let q4 = own + seq![pp[0]];
    assert(without(rp, "norm"@) == q1 && distinct_keys(q1)) by {
        assert(rp[0] == ep[0]);
        lemma_without_at(rp, 0);
        assert(rp.remove(0) =~= q1);
    }
    assert(without(q1, "ver"@) == q2 && distinct_keys(q2)) by {
        assert(q1[n + 3] == pp[3]);
        lemma_without_at(q1, n + 3);
        assert(q1.remove(n + 3) =~= q2);
    }
    assert(without(q2, "pmin"@) == q3 && distinct_keys(q3)) by {
        assert(q2[n + 1] == pp[1]);
        lemma_without_at(q2, n + 1);
        assert(q2.remove(n + 1) =~= q3);
    }
    assert(without(q3, "pmax"@) == q4 && distinct_keys(q4)) by {
        assert(q3[n + 1] == pp[2]);
        lemma_without_at(q3, n + 1);
        assert(q3.remove(n + 1) =~= q4);
    }
    assert(without(q4, "len-calc"@) == own) by {
        assert(q4[n] == pp[0]);
        lemma_without_at(q4, n);
        assert(q4.remove(n) =~= own);
    }
}

/// The record of a hash describes the policy that hashing stores.
pub proof fn lemma_policy_of_hash_record(c: EngineConfig, h: PolicyModel, raw: Seq<u8>)
    requires
        engine_norm(c) == h.normalization,
        engine_algorithm(c) == h.algorithm,
    ensures
        policy_of_record(hash_record(c, h, raw)) == Some(stored_policy(c, h, raw)),
{
    let rec = hash_record(c, h, raw);
    let rp = rec.parameters;
    let ep = engine_params(c);
    let pp = policy_pairs(h);
    let n = ep.len() as int;
    lemma_record_params(c, h);
    lemma_engine_params(c);
    lemma_algorithm_params(c, h);
    lemma_algorithm_id(h.algorithm);
    lemma_norm_text(h.normalization);
    lemma_len_calc_text(h.length_calculation);
    assert(rp[0] == ep[0]);
    assert(rp[n] == pp[0] && rp[n + 1] == pp[1] && rp[n + 2] == pp[2] && rp[n + 3] == pp[3]);
    lemma_key_index(rp, "norm"@, 0);
    assert(norm_param(rp) == Some(h.normalization));
    lemma_key_index(rp, "len-calc"@, n);
    assert(len_calc_param(rp) == Some(h.length_calculation));
    lemma_usize_param(rp, "pmin"@, n + 1, h.min_len, 8);
    lemma_usize_param(rp, "pmax"@, n + 2, h.max_len, 128);
    lemma_usize_param(rp, "ver"@, n + 3, h.version, 1);
}

/// The record of a hash is canonical.
pub proof fn lemma_hash_record_canonical(c: EngineConfig, h: PolicyModel, raw: Seq<u8>)
    requires
        raw.len() > 0,
        engine_salt(c).len() > 0,
    ensures
        canonical(hash_record(c, h, raw)),
{
    lemma_record_params(c, h);
    lemma_algorithm_id(h.algorithm);
}

/// The text that hashing writes is read as the policy that hashing stores.
pub proof fn lemma_hashed_text_is_read(h: PolicyModel, password: Text, salt: Seq<u8>)
    requires
        hashed(h, password, salt) is Ok,
    ensures
        configured(h, salt) is Some,
        policy_from_text(hashed(h, password, salt)->Ok_0.1) == Some(
            stored_policy(configured(h, salt)->0, h, hashed(h, password, salt)->Ok_0.0),
        ),
{
    let c = configured(h, salt)->0;
    let raw = hashed(h, password, salt)->Ok_0.0;
    lemma_configured(h.algorithm, h.normalization, h.parameters, salt);
    lemma_hash_record_canonical(c, h, raw);
    lemma_parse_serialize(hash_record(c, h, raw));
    lemma_policy_of_hash_record(c, h, raw);
}

/// A password is valid under the policy that is read from the record of
/// its own hash, whatever the key of the comparison is.
pub proof fn lemma_stored_password_is_valid(
    h: PolicyModel,
    password: Text,
    salt: Seq<u8>,
    fresh: Seq<u8>,
    key: Seq<u8>,
)
    requires
        hashed(h, password, salt) is Ok,
    ensures
        policy_from_text(hashed(h, password, salt)->Ok_0.1) is Some,
        valid_with(policy_from_text(hashed(h, password, salt)->Ok_0.1)->0, password, fresh, key),
{
    let c = configured(h, salt)->0;
    let raw = hashed(h, password, salt)->Ok_0.0;
    lemma_hashed_text_is_read(h, password, salt);
    let stored = stored_policy(c, h, raw);
    lemma_configured(h.algorithm, h.normalization, h.parameters, salt);
    let start = engine_with_norm(engine_default(h.algorithm), h.normalization);
    let bare = settings(h)->0;
    lemma_set_all_in_range(start, h.parameters);
    lemma_set_all_keeps(start, h.parameters);
    assert(own_params(bare) == own_params(c));
    lemma_reads_own(start, bare);
    assert(settings(stored) == Some(bare));
    assert(configured(stored, salt) == Some(c));
    assert(effective_salt(stored, fresh) == salt);
    assert(record_params(c, stored) == record_params(c, h));
    assert(hashed(stored, password, salt) is Ok);
    assert(hashed(stored, password, salt)->Ok_0.0 == raw);
}

/// Passwords with the same normal form are hashed alike, and are valid or
/// not together.
pub proof fn lemma_same_normal_form(
    h: PolicyModel,
    first: Text,
    second: Text,
    salt: Seq<u8>,
    key: Seq<u8>,
)
    requires
        normalized(h.normalization, first) == normalized(h.normalization, second),
    ensures
        hashed(h, first, salt) == hashed(h, second, salt),
        valid_with(h, first, salt, key) == valid_with(h, second, salt, key),
{
}

} // verus!
