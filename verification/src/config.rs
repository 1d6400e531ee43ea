//! The daemon's configuration.

use vstd::prelude::*;

verus! {

/// What the daemon is configured with: the input devices to scan.
#[derive(Debug, PartialEq, Eq)]
pub struct CharonConfig {
    /// The identifiers of the input devices, in the order to scan them.
    pub keyboards: Vec<String>,
}

/// The mathematical value of a [`CharonConfig`].
pub struct ConfigView {
    pub keyboards: Seq<Seq<char>>,
}

impl View for CharonConfig {
    type V = ConfigView;

    open spec fn view(&self) -> ConfigView {
        ConfigView { keyboards: self.keyboards@.map_values(|name: String| name@) }
    }
}

impl Clone for CharonConfig {
    fn clone(&self) -> (copy: CharonConfig)
        ensures
            copy@ == self@,
    {
        let mut keyboards: Vec<String> = Vec::new();
        let mut i: usize = 0;
        while i < self.keyboards.len()
            invariant
                i <= self.keyboards.len(),
                keyboards.len() == i,
                forall|k: int| 0 <= k < i ==> keyboards[k]@ == self.keyboards[k]@,
            decreases self.keyboards.len() - i,
        {
            keyboards.push(self.keyboards[i].clone());
            i += 1;
        }
        let copy = CharonConfig { keyboards };
        assert(copy@.keyboards =~= self@.keyboards);
        copy
    }
}

impl Default for CharonConfig {
    fn default() -> (config: CharonConfig)
        ensures
            config@.keyboards.len() == 0,
    {
        CharonConfig { keyboards: Vec::new() }
    }
}

/// The configuration of the scanner of one device: it names that device
/// and no other.
pub open spec fn keyboard_config(name: Seq<char>) -> ConfigView {
    ConfigView { keyboards: seq![name] }
}

impl CharonConfig {
    /// A configuration over these devices.
    pub fn new(keyboards: Vec<String>) -> (config: CharonConfig)
        ensures
            config.keyboards == keyboards,
    {
        CharonConfig { keyboards }
    }

    /// One entry per configured device, in the configured order: the
    /// device's identifier, and the configuration for its scanner.
    pub fn get_config_per_keyboard(&self) -> (entries: Vec<(String, CharonConfig)>)
        ensures
            entries.len() == self@.keyboards.len(),
            forall|i: int|
                0 <= i < entries.len() ==> (#[trigger] entries[i]).0@ == self@.keyboards[i]
                    && entries[i].1@ == keyboard_config(self@.keyboards[i]),
    {
        let mut entries: Vec<(String, CharonConfig)> = Vec::new();
        let mut i: usize = 0;
        while i < self.keyboards.len()
            invariant
                i <= self.keyboards.len(),
                entries.len() == i,
                forall|k: int|
                    0 <= k < i ==> (#[trigger] entries[k]).0@ == self@.keyboards[k]
                        && entries[k].1@ == keyboard_config(self@.keyboards[k]),
            decreases self.keyboards.len() - i,
        {
            let name = self.keyboards[i].clone();
            let mut only: Vec<String> = Vec::new();
            only.push(name.clone());
            let config = CharonConfig { keyboards: only };
            assert(config@.keyboards =~= seq![self@.keyboards[i as int]]);
            entries.push((name, config));
            i += 1;
        }
        entries
    }
}

} // verus!
