//! The environment of the process that a command is run in: the variables
//! of the current process with the project's environment activated.

use vstd::prelude::*;
use crate::bytes::bytes_eq;
use crate::words::{
    python_home, python_home_bytes, search_path, search_path_bytes, virtual_env,
    virtual_env_bytes,
};

verus! {

/// An environment variable with its value.
#[derive(Clone, Debug, PartialEq, Eq)]
pub struct EnvVar {
    pub name: Vec<u8>,
    pub value: Vec<u8>,
}

/// What an `EnvVar` holds.
pub struct Binding {
    pub name: Seq<u8>,
    pub value: Seq<u8>,
}

impl View for EnvVar {
    type V = Binding;

    open spec fn view(&self) -> Binding {
        Binding { name: self.name@, value: self.value@ }
    }
}

/// What a list of variables holds.
pub open spec fn bindings(vars: Seq<EnvVar>) -> Seq<Binding> {
    Seq::new(vars.len(), |i: int| vars[i]@)
}

/// Whether activation sets or removes the variable `name`.
pub open spec fn is_overlaid(name: Seq<u8>) -> bool {
    name == virtual_env() || name == search_path() || name == python_home()
}

/// The variables that activation leaves alone, in their order.
pub open spec fn untouched(env: Seq<Binding>) -> Seq<Binding>
    decreases env.len(),
{
    if env.len() == 0 {
        Seq::empty()
    } else if is_overlaid(env.last().name) {
        untouched(env.drop_last())
    } else {
        untouched(env.drop_last()).push(env.last())
    }
}

/// The environment `env` with a project environment activated:
/// `VIRTUAL_ENV` is `venv`, `PATH` is `path`, `PYTHONHOME` is gone, and
/// every other variable is as it was.
pub open spec fn activated_env(env: Seq<Binding>, venv: Seq<u8>, path: Seq<u8>) -> Seq<Binding> {
    untouched(env).push(Binding { name: virtual_env(), value: venv }).push(
        Binding { name: search_path(), value: path },
    )
}

/// The value of the first variable called `name`.
pub open spec fn value_of(env: Seq<Binding>, name: Seq<u8>) -> Option<Seq<u8>>
    decreases env.len(),
{
    if env.len() == 0 {
        None
    } else if env[0].name == name {
        Some(env[0].value)
    } else {
        value_of(env.skip(1), name)
    }
}

/// Looks a variable up.
pub fn lookup<'a>(env: &'a Vec<EnvVar>, name: &Vec<u8>) -> (value: Option<&'a Vec<u8>>)
    ensures
        match value {
            Some(v) => value_of(bindings(env@), name@) == Some(v@),
            None => value_of(bindings(env@), name@) is None,
        },
{
    let mut i: usize = 0;
    proof {
        assert(bindings(env@).skip(0) =~= bindings(env@));
    }
    while i < env.len()
        invariant
            i <= env.len(),
            value_of(bindings(env@), name@) == value_of(bindings(env@).skip(i as int), name@),
        decreases env.len() - i,
    {
        proof {
            assert(bindings(env@).skip(i as int).skip(1) =~= bindings(env@).skip(i + 1));
            assert(bindings(env@).skip(i as int)[0] == env@[i as int]@);
        }
        if bytes_eq(&env[i].name, name) {
            return Some(&env[i].value);
        }
        i += 1;
    }
    None
}

/// Applies the activation of a project environment to `env`.
pub fn activate(env: &Vec<EnvVar>, venv: &Vec<u8>, path: &Vec<u8>) -> (out: Vec<EnvVar>)
    ensures
        bindings(out@) == activated_env(bindings(env@), venv@, path@),
{
    let virtual_env_name = virtual_env_bytes();
    let path_name = search_path_bytes();
    let home_name = python_home_bytes();
    let mut out: Vec<EnvVar> = Vec::new();
    let mut i: usize = 0;
    proof {
        assert(bindings(out@) =~= untouched(bindings(env@).take(0)));
    }
    while i < env.len()
        invariant
            i <= env.len(),
            virtual_env_name@ == virtual_env(),
            path_name@ == search_path(),
            home_name@ == python_home(),
            bindings(out@) == untouched(bindings(env@).take(i as int)),
        decreases env.len() - i,
    {
        proof {
            let now = bindings(env@).take(i + 1);
            assert(now.drop_last() =~= bindings(env@).take(i as int));
            assert(now.last() == env@[i as int]@);
        }
        let name = &env[i].name;
        if !(bytes_eq(name, &virtual_env_name) || bytes_eq(name, &path_name) || bytes_eq(
            name,
            &home_name,
        )) {
            let ghost before = out@;
            out.push(EnvVar { name: name.clone(), value: env[i].value.clone() });
            proof {
                assert(bindings(out@) =~= bindings(before).push(env@[i as int]@));
            }
        }
        i += 1;
    }
    proof {
        assert(bindings(env@).take(env@.len() as int) =~= bindings(env@));
    }
    let ghost kept = out@;
    out.push(EnvVar { name: virtual_env_name, value: venv.clone() });
    out.push(EnvVar { name: path_name, value: path.clone() });
    proof {
        assert(bindings(out@) =~= activated_env(bindings(env@), venv@, path@));
    }
    out
}

/// Activation leaves every variable alone but the three it is about, and
/// keeps none of those three from before.
pub proof fn untouched_keeps_the_rest(env: Seq<Binding>)
    ensures
        forall|i: int|
            0 <= i < env.len() && !is_overlaid((#[trigger] env[i]).name) ==> untouched(env).contains(
                env[i],
            ),
        forall|k: int|
            0 <= k < untouched(env).len() ==> !is_overlaid((#[trigger] untouched(env)[k]).name)
                && env.contains(untouched(env)[k]),
    decreases env.len(),
{
    if env.len() > 0 {
        let front = env.drop_last();
        untouched_keeps_the_rest(front);
        let kept = untouched(env);
        let kept_before = untouched(front);
        assert forall|i: int| 0 <= i < env.len() && !is_overlaid((#[trigger] env[i]).name) implies kept.contains(
            env[i],
        ) by {
            if i < env.len() - 1 {
                assert(front[i] == env[i]);
                let k = choose|k: int| 0 <= k < kept_before.len() && kept_before[k] == env[i];
                assert(kept[k] == kept_before[k]);
            } else {
                assert(kept[kept.len() - 1] == env[i]);
            }
        }
        assert forall|k: int| 0 <= k < kept.len() implies !is_overlaid((#[trigger] kept[k]).name)
            && env.contains(kept[k]) by {
            if k < kept_before.len() {
                assert(kept[k] == kept_before[k]);
                let i = choose|i: int| 0 <= i < front.len() && front[i] == kept_before[k];
                assert(env[i] == kept[k]);
            } else {
                assert(env[env.len() - 1] == kept[k]);
            }
        }
    }
}

/// In an activated environment `PYTHONHOME` is not set, `VIRTUAL_ENV` and
/// `PATH` are set once each, to the environment's root and to the new search
/// path.
pub proof fn activation_sets_and_removes(env: Seq<Binding>, venv: Seq<u8>, path: Seq<u8>)
    ensures
        ({
            let after = activated_env(env, venv, path);
            &&& forall|k: int| 0 <= k < after.len() ==> (#[trigger] after[k]).name != python_home()
            &&& forall|k: int|
                0 <= k < after.len() && (#[trigger] after[k]).name == virtual_env() ==> after[k].value
                    == venv
            &&& forall|k: int|
                0 <= k < after.len() && (#[trigger] after[k]).name == search_path() ==> after[k].value
                    == path
            &&& after.contains(Binding { name: virtual_env(), value: venv })
            &&& after.contains(Binding { name: search_path(), value: path })
        }),
{
    untouched_keeps_the_rest(env);
    let kept = untouched(env);
    let after = activated_env(env, venv, path);
    assert(virtual_env() != search_path()) by {
        assert(virtual_env()[0] != search_path()[0]);
    }
    assert(virtual_env() != python_home()) by {
        assert(virtual_env()[0] != python_home()[0]);
    }
    assert(search_path() != python_home()) by {
        assert(search_path()[1] != python_home()[1]);
    }
    assert forall|k: int| 0 <= k < after.len() implies (#[trigger] after[k]).name != python_home() && (
    after[k].name == virtual_env() ==> after[k].value == venv) && (after[k].name == search_path()
        ==> after[k].value == path) by {
        if k < kept.len() {
            assert(after[k] == kept[k]);
        }
    }
    assert(after[after.len() - 2] == Binding { name: virtual_env(), value: venv });
    assert(after[after.len() - 1] == Binding { name: search_path(), value: path });
}

} // verus!
