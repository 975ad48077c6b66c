use compositor_config::profile::{resolve_profile, startup_profile, GfxApi, KeymapChoice, Profile};

#[test]
fn desktop_host_selects_opengl_and_us_layout() {
    let p = resolve_profile(&"dtopPC2".to_string());
    assert_eq!(p, Profile { gfx: GfxApi::OpenGl, keymap: KeymapChoice::Us });
}

#[test]
fn other_hosts_select_vulkan_and_it_layout() {
    let expected = Profile { gfx: GfxApi::Vulkan, keymap: KeymapChoice::It };
    assert_eq!(resolve_profile(&"laptop".to_string()), expected);
    assert_eq!(resolve_profile(&"".to_string()), expected);
    assert_eq!(resolve_profile(&"dtopPC".to_string()), expected);
    assert_eq!(resolve_profile(&"dtopPC22".to_string()), expected);
}

#[test]
fn startup_profile_is_one_of_the_two_profiles() {
    // goes through the machine's real host name
    let p = startup_profile();
    let desktop = Profile { gfx: GfxApi::OpenGl, keymap: KeymapChoice::Us };
    let other = Profile { gfx: GfxApi::Vulkan, keymap: KeymapChoice::It };
    assert!(p == desktop || p == other);
}
