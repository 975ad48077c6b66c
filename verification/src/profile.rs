use vstd::prelude::*;

verus! {

/// The graphics backend a profile selects.
#[derive(Clone, Copy, PartialEq, Eq, Structural, Debug)]
pub enum GfxApi {
    OpenGl,
    Vulkan,
}

/// Which keyboard layout a profile selects.
#[derive(Clone, Copy, PartialEq, Eq, Structural, Debug)]
pub enum KeymapChoice {
    Us,
    It,
}

/// What host-dependent startup configuration resolves to: an immutable
/// value computed once, consumed by the rest of configuration.
#[derive(Clone, Copy, PartialEq, Eq, Structural, Debug)]
pub struct Profile {
    pub gfx: GfxApi,
    pub keymap: KeymapChoice,
}

/// The profile a host identity selects: the desktop machine drives OpenGL
/// with the US layout, every other machine Vulkan with the Italian layout.
pub open spec fn spec_profile_for(host: Seq<char>) -> Profile {
    if host == "dtopPC2"@ {
        Profile { gfx: GfxApi::OpenGl, keymap: KeymapChoice::Us }
    } else {
        Profile { gfx: GfxApi::Vulkan, keymap: KeymapChoice::It }
    }
}

/// Resolve the profile for a host identity string.
pub fn resolve_profile(host: &String) -> (r: Profile)
    ensures
        r == spec_profile_for(host@),
{
    let expected: String = "dtopPC2".to_owned();
    if *host == expected {
        Profile { gfx: GfxApi::OpenGl, keymap: KeymapChoice::Us }
    } else {
        Profile { gfx: GfxApi::Vulkan, keymap: KeymapChoice::It }
    }
}

/// The machine's host name, when the system reports one that is valid
/// UTF-8.
///
/// Relies on `hostname::get`, which asks the operating system for the host
/// name; nothing is promised of the result, which depends on the machine.
#[verifier::external_body]
fn machine_hostname() -> (r: Option<String>) {
    match hostname::get() {
        Ok(h) => h.into_string().ok(),
        Err(_) => None,
    }
}

/// Resolve the startup profile from the machine's own identity. A host
/// whose name cannot be read falls back to the profile of an unrecognized
/// host, so startup never fails over it.
pub fn startup_profile() -> (r: Profile)
    ensures
        exists|host: Seq<char>| r == spec_profile_for(host),
{
    match machine_hostname() {
        Option::Some(h) => {
            let p = resolve_profile(&h);
            proof {
                assert(p == spec_profile_for(h@));
            }
            p
        },
        Option::None => {
            proof {
                reveal_strlit("dtopPC2");
                assert("dtopPC2"@.len() == 7);
                assert(Seq::<char>::empty() != "dtopPC2"@);
                assert((Profile { gfx: GfxApi::Vulkan, keymap: KeymapChoice::It })
                    == spec_profile_for(Seq::<char>::empty()));
            }
            Profile { gfx: GfxApi::Vulkan, keymap: KeymapChoice::It }
        },
    }
}

} // verus!
