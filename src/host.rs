use vstd::prelude::*;
use crate::error::GError;
use crate::target::same_text;

verus! {

/// The tail of a binary distribution's file name for macOS.
pub open spec fn darwin_suffix() -> Seq<char> {
    "-apple.darwin.+tar.xz$"@
}

/// The tail of a binary distribution's file name for Linux.
pub open spec fn linux_suffix() -> Seq<char> {
    "-deb[89]-linux|[^l]+linux-deb7)[^-]+tar.xz$"@
}

/// The pattern that names a binary distribution for a host, from the
/// operating system's and the machine's identifiers as the probe gave them.
/// An unknown identity (an empty system name) filters nothing and gives
/// `None`; a known system other than Darwin or Linux is unsupported. The
/// Linux pattern is an alternation of two name shapes, so it opens with the
/// `(` that its closing `)` pairs with.
pub fn os_to_target(system: &str, machine: &str) -> (r: Result<Option<String>, GError>)
    ensures
        system@.len() == 0 ==> r == Ok::<Option<String>, GError>(None),
        system@ == "Darwin"@ ==> r is Ok && r.unwrap() is Some && r.unwrap().unwrap()@ == machine@
            + darwin_suffix(),
        system@ == "Linux"@ ==> r is Ok && r.unwrap() is Some && r.unwrap().unwrap()@ == "("@ + machine@
            + linux_suffix(),
        system@.len() > 0 && system@ != "Darwin"@ && system@ != "Linux"@ ==> r == Err::<Option<String>, GError>(
            GError::UnsupportedOS,
        ),
{
    proof {
        reveal_strlit("Darwin");
        reveal_strlit("Linux");
        assert("Darwin"@.len() == 6 && "Linux"@.len() == 5);
    }
    if system.is_empty() {
        Ok(None)
    } else if same_text(system, "Darwin") {
        Ok(Some(machine.to_owned().concat("-apple.darwin.+tar.xz$")))
    } else if same_text(system, "Linux") {
        Ok(Some("(".to_owned().concat(machine).concat("-deb[89]-linux|[^l]+linux-deb7)[^-]+tar.xz$")))
    } else {
        Err(GError::UnsupportedOS)
    }
}

} // verus!
