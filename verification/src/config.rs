//! The configuration: input devices, gesture threshold, and the action mapped to each gesture
//! or key.
use vstd::prelude::*;
use crate::strmap::StrMap;

verus! {

/// Paths of the two input devices of the remote.
pub struct DeviceConfig {
    /// The touch ring (swipes and taps).
    pub touch: String,
    /// The consumer-control keys (power).
    pub consumer: String,
}

/// Gesture recognition settings.
pub struct GestureConfig {
    /// Least move, in device units, that counts as a swipe.
    pub threshold: i32,
}

/// The whole configuration of one profile.
pub struct Config {
    pub device: DeviceConfig,
    pub gesture: GestureConfig,
    /// Action for each gesture or key name (`"UP"`, `"TAP"`, `"POWER"`, ...).
    pub mappings: StrMap,
    /// Path to an alternative config file (legacy, use `alt_configs`).
    pub alt_config: Option<String>,
    /// Alternative config files cycled on a Mod tap.
    pub alt_configs: Vec<String>,
}

/// The default touch device path.
pub open spec fn spec_default_touch() -> Seq<char> {
    "/dev/input/event22"@
}

/// The default consumer-control device path.
pub open spec fn spec_default_consumer() -> Seq<char> {
    "/dev/input/event23"@
}

/// The default swipe threshold.
pub open spec fn spec_default_threshold() -> i32 {
    80
}

/// The mappings of the default configuration: the four swipes switch windows and workspaces.
pub open spec fn spec_default_mappings() -> Map<Seq<char>, Seq<char>> {
    Map::empty()
        .insert("UP"@, "command:hyprctl dispatch cyclenext prev"@)
        .insert("DOWN"@, "command:hyprctl dispatch cyclenext"@)
        .insert("LEFT"@, "command:hyprctl dispatch workspace e-1"@)
        .insert("RIGHT"@, "command:hyprctl dispatch workspace e+1"@)
}

/// The default devices.
pub fn default_device() -> (r: DeviceConfig)
    ensures
        r.touch@ == spec_default_touch(),
        r.consumer@ == spec_default_consumer(),
{
    DeviceConfig { touch: "/dev/input/event22".to_owned(), consumer: "/dev/input/event23".to_owned() }
}

/// The default gesture settings.
pub fn default_gesture() -> (r: GestureConfig)
    ensures
        r.threshold == spec_default_threshold(),
{
    GestureConfig { threshold: 80 }
}

/// The default touch device path.
pub fn default_touch() -> (r: String)
    ensures
        r@ == spec_default_touch(),
{
    "/dev/input/event22".to_owned()
}

/// The default consumer-control device path.
pub fn default_consumer() -> (r: String)
    ensures
        r@ == spec_default_consumer(),
{
    "/dev/input/event23".to_owned()
}

/// The default swipe threshold.
pub fn default_threshold() -> (r: i32)
    ensures
        r == spec_default_threshold(),
{
    80
}

impl Default for Config {
    fn default() -> (r: Self)
        ensures
            r.device.touch@ == spec_default_touch(),
            r.device.consumer@ == spec_default_consumer(),
            r.gesture.threshold == spec_default_threshold(),
            r.mappings@ == spec_default_mappings(),
            r.alt_config is None,
            r.alt_configs@.len() == 0,
    {
        let mut mappings = StrMap::new();
        mappings.insert("UP".to_owned(), "command:hyprctl dispatch cyclenext prev".to_owned());
        mappings.insert("DOWN".to_owned(), "command:hyprctl dispatch cyclenext".to_owned());
        mappings.insert("LEFT".to_owned(), "command:hyprctl dispatch workspace e-1".to_owned());
        mappings.insert("RIGHT".to_owned(), "command:hyprctl dispatch workspace e+1".to_owned());
        Config {
            device: default_device(),
            gesture: default_gesture(),
            mappings,
            alt_config: None,
            alt_configs: Vec::new(),
        }
    }
}

impl Config {
    /// The action mapped to `gesture`, if any.
    pub fn get_mapping(&self, gesture: &str) -> (r: Option<&str>)
        ensures
            r is Some <==> self.mappings@.contains_key(gesture@),
            r matches Some(a) ==> a@ == self.mappings@[gesture@],
    {
        self.mappings.get(gesture)
    }
}

} // verus!

verus! {

/// The default configuration maps exactly the four swipes.
pub proof fn law_default_mappings()
    ensures
        spec_default_mappings().dom().finite(),
        spec_default_mappings().len() == 4,
        spec_default_mappings().contains_key("UP"@),
        spec_default_mappings().contains_key("DOWN"@),
        spec_default_mappings().contains_key("LEFT"@),
        spec_default_mappings().contains_key("RIGHT"@),
        !spec_default_mappings().contains_key("TAP"@),
        !spec_default_mappings().contains_key("DOUBLE_TAP"@),
{
    reveal_strlit("UP");
    reveal_strlit("DOWN");
    reveal_strlit("LEFT");
    reveal_strlit("RIGHT");
    reveal_strlit("TAP");
    reveal_strlit("DOUBLE_TAP");
    let e = Map::<Seq<char>, Seq<char>>::empty();
    let m1 = e.insert("UP"@, "command:hyprctl dispatch cyclenext prev"@);
    let m2 = m1.insert("DOWN"@, "command:hyprctl dispatch cyclenext"@);
    let m3 = m2.insert("LEFT"@, "command:hyprctl dispatch workspace e-1"@);
    assert(!m1.contains_key("DOWN"@)) by {
        assert("UP"@ != "DOWN"@) by {
            assert("UP"@.len() != "DOWN"@.len());
        }
    }
    assert(!m2.contains_key("LEFT"@)) by {
        assert("UP"@ != "LEFT"@) by {
            assert("UP"@.len() != "LEFT"@.len());
        }
        assert("DOWN"@ != "LEFT"@) by {
            assert("DOWN"@[0] != "LEFT"@[0]);
        }
    }
    assert(!m3.contains_key("RIGHT"@)) by {
        assert("UP"@ != "RIGHT"@) by {
            assert("UP"@.len() != "RIGHT"@.len());
        }
        assert("DOWN"@ != "RIGHT"@) by {
            assert("DOWN"@.len() != "RIGHT"@.len());
        }
        assert("LEFT"@ != "RIGHT"@) by {
            assert("LEFT"@.len() != "RIGHT"@.len());
        }
    }
    assert("TAP"@ != "UP"@) by {
        assert("TAP"@.len() != "UP"@.len());
    }
    assert("TAP"@ != "DOWN"@) by {
        assert("TAP"@.len() != "DOWN"@.len());
    }
    assert("TAP"@ != "LEFT"@) by {
        assert("TAP"@.len() != "LEFT"@.len());
    }
    assert("TAP"@ != "RIGHT"@) by {
        assert("TAP"@.len() != "RIGHT"@.len());
    }
    assert("DOUBLE_TAP"@ != "UP"@) by {
        assert("DOUBLE_TAP"@.len() != "UP"@.len());
    }
    assert("DOUBLE_TAP"@ != "DOWN"@) by {
        assert("DOUBLE_TAP"@.len() != "DOWN"@.len());
    }
    assert("DOUBLE_TAP"@ != "LEFT"@) by {
        assert("DOUBLE_TAP"@.len() != "LEFT"@.len());
    }
    assert("DOUBLE_TAP"@ != "RIGHT"@) by {
        assert("DOUBLE_TAP"@.len() != "RIGHT"@.len());
    }
}

} // verus!
