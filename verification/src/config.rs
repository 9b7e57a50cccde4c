//! Where the commands find a service, and which tenant they mean.

use crate::report::ExitCode;
use crate::text::text_of;
use vstd::prelude::*;
use vstd::string::*;

verus! {

/// The first of `flag`, `env` and `fallback` that is given.
pub open spec fn first_given(
    flag: Option<Seq<char>>,
    env: Option<Seq<char>>,
    fallback: Seq<char>,
) -> Seq<char> {
    match flag {
        Some(s) => s,
        None => match env {
            Some(s) => s,
            None => fallback,
        },
    }
}

/// The first of `flag`, `env` and `fallback` that is given.
fn choose_first(flag: &Option<String>, env: &Option<String>, fallback: &str) -> (r: String)
    ensures
        r@ == first_given(text_of(*flag), text_of(*env), fallback@),
{
    match flag {
        Some(s) => s.clone(),
        None => match env {
            Some(s) => s.clone(),
            None => fallback.to_owned(),
        },
    }
}

/// The identity service's address: the flag, then the environment, then the
/// configuration file, then the built-in default.
pub fn resolve_identity_url(
    flag: &Option<String>,
    env: &Option<String>,
    config: &Option<String>,
) -> (r: String)
    ensures
        r@ == first_given(
            text_of(*flag),
            text_of(*env),
            first_given(text_of(*config), None, "http://localhost:8086"@),
        ),
        flag matches Some(s) ==> r@ == s@,
        flag is None && env is Some ==> r@ == env->0@,
        flag is None && env is None && config is Some ==> r@ == config->0@,
        flag is None && env is None && config is None ==> r@ == "http://localhost:8086"@,
{
    let fallback = choose_first(config, &None, "http://localhost:8086");
    choose_first(flag, env, fallback.as_str())
}

/// The ledger's address: the flag, then the environment, then the built-in
/// default.
pub fn resolve_ledger_url(flag: &Option<String>, env: &Option<String>) -> (r: String)
    ensures
        r@ == first_given(text_of(*flag), text_of(*env), "http://localhost:8083"@),
        flag matches Some(s) ==> r@ == s@,
        flag is None && env is Some ==> r@ == env->0@,
        flag is None && env is None ==> r@ == "http://localhost:8083"@,
{
    choose_first(flag, env, "http://localhost:8083")
}

/// The policy engine's address: the flag, then the environment, then the
/// built-in default.
pub fn resolve_policy_url(flag: &Option<String>, env: &Option<String>) -> (r: String)
    ensures
        r@ == first_given(text_of(*flag), text_of(*env), "http://localhost:8082"@),
        flag matches Some(s) ==> r@ == s@,
        flag is None && env is Some ==> r@ == env->0@,
        flag is None && env is None ==> r@ == "http://localhost:8082"@,
{
    choose_first(flag, env, "http://localhost:8082")
}

/// The tenant: the flag, then the environment, then the configuration file.
/// There is no built-in default: without any of them the command is invalid.
pub fn resolve_tenant(
    flag: &Option<String>,
    env: &Option<String>,
    config: &Option<String>,
) -> (r: Result<String, ExitCode>)
    ensures
        match r {
            Ok(tenant) => (flag is Some || env is Some || config is Some) && tenant@
                == first_given(
                text_of(*flag),
                text_of(*env),
                first_given(text_of(*config), None, Seq::empty()),
            ),
            Err(exit) => flag is None && env is None && config is None && exit
                == ExitCode::Validation,
        },
        flag is Some ==> (r matches Ok(tenant) && tenant@ == flag->0@),
        flag is None && env is Some ==> (r matches Ok(tenant) && tenant@ == env->0@),
        flag is None && env is None && config is Some ==> (r matches Ok(tenant) && tenant@
            == config->0@),
{
    match config {
        Some(c) => Ok(choose_first(flag, env, c.as_str())),
        None => match flag {
            Some(s) => Ok(s.clone()),
            None => match env {
                Some(s) => Ok(s.clone()),
                None => Err(ExitCode::Validation),
            },
        },
    }
}

/// A flag outranks everything else, and the environment every default.
pub proof fn precedence(flag: Seq<char>, env: Option<Seq<char>>, set: Seq<char>, fallback: Seq<char>)
    ensures
        first_given(Some(flag), env, fallback) == flag,
        first_given(None, Some(set), fallback) == set,
        first_given(None, None, fallback) == fallback,
{
}

} // verus!
