//! The fixed names and words of the tool layout and of the installer's
//! command line, as byte strings.

use vstd::prelude::*;

verus! {

/// The name of the shim directory below the application directory, `shims`.
pub open spec fn shims() -> Seq<u8> {
    seq![115u8, 104u8, 105u8, 109u8, 115u8]
}

/// The bytes of `shims`.
pub fn shims_bytes() -> (out: Vec<u8>)
    ensures
        out@ == shims(),
{
    let out: Vec<u8> = vec![115u8, 104u8, 105u8, 109u8, 115u8];
    proof {
        assert(out@ =~= shims());
    }
    out
}

/// The name of the directory that holds the tool environments, `tools`.
pub open spec fn tools() -> Seq<u8> {
    seq![116u8, 111u8, 111u8, 108u8, 115u8]
}

/// The bytes of `tools`.
pub fn tools_bytes() -> (out: Vec<u8>)
    ensures
        out@ == tools(),
{
    let out: Vec<u8> = vec![116u8, 111u8, 111u8, 108u8, 115u8];
    proof {
        assert(out@ =~= tools());
    }
    out
}

/// The name of an environment's directory of executables, `bin`.
pub open spec fn bin() -> Seq<u8> {
    seq![98u8, 105u8, 110u8]
}

/// The bytes of `bin`.
pub fn bin_bytes() -> (out: Vec<u8>)
    ensures
        out@ == bin(),
{
    let out: Vec<u8> = vec![98u8, 105u8, 110u8];
    proof {
        assert(out@ =~= bin());
    }
    out
}

/// The name of an environment's interpreter, `python`.
pub open spec fn python() -> Seq<u8> {
    seq![112u8, 121u8, 116u8, 104u8, 111u8, 110u8]
}

/// The bytes of `python`.
pub fn python_bytes() -> (out: Vec<u8>)
    ensures
        out@ == python(),
{
    let out: Vec<u8> = vec![112u8, 121u8, 116u8, 104u8, 111u8, 110u8];
    proof {
        assert(out@ =~= python());
    }
    out
}

/// The package installer inside an environment, `bin/pip`.
pub open spec fn bin_pip() -> Seq<u8> {
    seq![98u8, 105u8, 110u8, 47u8, 112u8, 105u8, 112u8]
}

/// The bytes of `bin_pip`.
pub fn bin_pip_bytes() -> (out: Vec<u8>)
    ensures
        out@ == bin_pip(),
{
    let out: Vec<u8> = vec![98u8, 105u8, 110u8, 47u8, 112u8, 105u8, 112u8];
    proof {
        assert(out@ =~= bin_pip());
    }
    out
}

/// The installer's option that names the target interpreter, `--python`.
pub open spec fn flag_python() -> Seq<u8> {
    seq![45u8, 45u8, 112u8, 121u8, 116u8, 104u8, 111u8, 110u8]
}

/// The bytes of `flag_python`.
pub fn flag_python_bytes() -> (out: Vec<u8>)
    ensures
        out@ == flag_python(),
{
    let out: Vec<u8> = vec![45u8, 45u8, 112u8, 121u8, 116u8, 104u8, 111u8, 110u8];
    proof {
        assert(out@ =~= flag_python());
    }
    out
}

/// The installer's subcommand, `install`.
pub open spec fn install_word() -> Seq<u8> {
    seq![105u8, 110u8, 115u8, 116u8, 97u8, 108u8, 108u8]
}

/// The bytes of `install_word`.
pub fn install_word_bytes() -> (out: Vec<u8>)
    ensures
        out@ == install_word(),
{
    let out: Vec<u8> = vec![105u8, 110u8, 115u8, 116u8, 97u8, 108u8, 108u8];
    proof {
        assert(out@ =~= install_word());
    }
    out
}

/// The installer's option for more output, `--verbose`.
pub open spec fn flag_verbose() -> Seq<u8> {
    seq![45u8, 45u8, 118u8, 101u8, 114u8, 98u8, 111u8, 115u8, 101u8]
}

/// The bytes of `flag_verbose`.
pub fn flag_verbose_bytes() -> (out: Vec<u8>)
    ensures
        out@ == flag_verbose(),
{
    let out: Vec<u8> = vec![45u8, 45u8, 118u8, 101u8, 114u8, 98u8, 111u8, 115u8, 101u8];
    proof {
        assert(out@ =~= flag_verbose());
    }
    out
}

/// The installer's option for less output, `-q`.
pub open spec fn flag_quiet() -> Seq<u8> {
    seq![45u8, 113u8]
}

/// The bytes of `flag_quiet`.
pub fn flag_quiet_bytes() -> (out: Vec<u8>)
    ensures
        out@ == flag_quiet(),
{
    let out: Vec<u8> = vec![45u8, 113u8];
    proof {
        assert(out@ =~= flag_quiet());
    }
    out
}

/// The mark that ends the installer's options, `--`.
pub open spec fn end_of_options() -> Seq<u8> {
    seq![45u8, 45u8]
}

/// The bytes of `end_of_options`.
pub fn end_of_options_bytes() -> (out: Vec<u8>)
    ensures
        out@ == end_of_options(),
{
    let out: Vec<u8> = vec![45u8, 45u8];
    proof {
        assert(out@ =~= end_of_options());
    }
    out
}

/// The value of `PYTHONWARNINGS` under which the installer runs, `ignore`.
pub open spec fn ignore() -> Seq<u8> {
    seq![105u8, 103u8, 110u8, 111u8, 114u8, 101u8]
}

/// The bytes of `ignore`.
pub fn ignore_bytes() -> (out: Vec<u8>)
    ensures
        out@ == ignore(),
{
    let out: Vec<u8> = vec![105u8, 103u8, 110u8, 111u8, 114u8, 101u8];
    proof {
        assert(out@ =~= ignore());
    }
    out
}

/// The variable that names the active environment, `VIRTUAL_ENV`.
pub open spec fn virtual_env() -> Seq<u8> {
    seq![86u8, 73u8, 82u8, 84u8, 85u8, 65u8, 76u8, 95u8, 69u8, 78u8, 86u8]
}

/// The bytes of `virtual_env`.
pub fn virtual_env_bytes() -> (out: Vec<u8>)
    ensures
        out@ == virtual_env(),
{
    let out: Vec<u8> = vec![86u8, 73u8, 82u8, 84u8, 85u8, 65u8, 76u8, 95u8, 69u8, 78u8, 86u8];
    proof {
        assert(out@ =~= virtual_env());
    }
    out
}

/// The variable that holds the search path, `PATH`.
pub open spec fn search_path() -> Seq<u8> {
    seq![80u8, 65u8, 84u8, 72u8]
}

/// The bytes of `search_path`.
pub fn search_path_bytes() -> (out: Vec<u8>)
    ensures
        out@ == search_path(),
{
    let out: Vec<u8> = vec![80u8, 65u8, 84u8, 72u8];
    proof {
        assert(out@ =~= search_path());
    }
    out
}

/// The variable that would point the interpreter elsewhere, `PYTHONHOME`.
pub open spec fn python_home() -> Seq<u8> {
    seq![80u8, 89u8, 84u8, 72u8, 79u8, 78u8, 72u8, 79u8, 77u8, 69u8]
}

/// The bytes of `python_home`.
pub fn python_home_bytes() -> (out: Vec<u8>)
    ensures
        out@ == python_home(),
{
    let out: Vec<u8> = vec![80u8, 89u8, 84u8, 72u8, 79u8, 78u8, 72u8, 79u8, 77u8, 69u8];
    proof {
        assert(out@ =~= python_home());
    }
    out
}

} // verus!
