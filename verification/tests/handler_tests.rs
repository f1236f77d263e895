use sonify_health::library::{dependents, record_param_change, OverrideInfo};
use sonify_health::named_map::NamedMap;
use sonify_health::protocol::{parse_request, ClientRequest};

/// The `freq` of each patch, standing for the patch table.
fn freqs() -> NamedMap<f64> {
    let mut lib = NamedMap::new();
    lib.insert("sine".to_string(), 440.0);
    lib
}

/// Set `freq` on `patch_name` the way a parameter request does: the
/// patch changes, an override records it, and followers of the patch
/// take the value too.
fn set_freq(lib: &mut NamedMap<f64>, ovr: &mut NamedMap<OverrideInfo<f64>>, patch_name: &str, value: f64) {
    lib.insert(patch_name.to_string(), value);
    record_param_change(ovr, patch_name, "freq", value);
    for dep in dependents(ovr, patch_name, "freq") {
        lib.insert(dep, value);
    }
}

#[test]
fn atomic_handler_propagates_to_dependent_overrides() {
    assert_eq!(parse_request("set_patch_param_and_play"), Some(ClientRequest::SetPatchParamAndPlay));
    let mut lib = freqs();
    lib.insert("sine-copy".to_string(), 440.0);
    let mut ovr = NamedMap::new();
    ovr.insert("sine-copy".to_string(), OverrideInfo { base: "sine".to_string(), delta: NamedMap::new() });
    let new_val = 440.0 + 77.0;
    set_freq(&mut lib, &mut ovr, "sine", new_val);
    assert_eq!(lib.get("sine"), Some(&new_val));
    assert_eq!(lib.get("sine-copy"), Some(&new_val));
}

#[test]
fn atomic_handler_respects_override_delta() {
    let mut lib = freqs();
    lib.insert("sine-copy".to_string(), 1234.0);
    let mut delta = NamedMap::new();
    delta.insert("freq".to_string(), 1234.0);
    let mut ovr = NamedMap::new();
    ovr.insert("sine-copy".to_string(), OverrideInfo { base: "sine".to_string(), delta });
    set_freq(&mut lib, &mut ovr, "sine", 9999.0);
    assert_eq!(lib.get("sine"), Some(&9999.0));
    assert_eq!(lib.get("sine-copy"), Some(&1234.0));
}
