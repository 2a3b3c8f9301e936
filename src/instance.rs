//! Instances: a game version with its runtime and settings, and the registry
//! document that holds them.

use vstd::prelude::*;
use crate::runtime::JavaConfig;
use crate::text::eq_str;

verus! {

#[derive(Clone, Debug)]
pub struct Modloader {
    pub loader: String,
    pub version: Option<String>,
}

#[derive(Clone, Debug)]
pub struct Game {
    pub version: String,
    pub modloader: Modloader,
    pub url: String,
}

/// The runtime an instance runs on.
#[derive(Clone, Debug)]
pub struct Java {
    pub path: String,
    pub args: Vec<String>,
    pub version: u8,
}

/// Per-instance settings and play statistics. `last_played` is in
/// milliseconds since the epoch.
#[derive(Clone, Debug)]
pub struct Settings {
    pub has_launched: bool,
    pub rich_presence: bool,
    pub window_width: u32,
    pub window_height: u32,
    pub maximized: bool,
    pub time_played: u64,
    pub last_played: Option<i64>,
}

#[derive(Clone, Debug)]
pub struct Instance {
    pub slug: String,
    pub name: String,
    pub game: Game,
    pub java: Java,
    pub settings: Settings,
}

/// The registry of instances, as stored.
#[derive(Clone, Debug)]
pub struct InstanceConfig {
    pub instances: Vec<Instance>,
}

/// Why an instance cannot be created.
#[derive(Clone, Debug, PartialEq, Eq)]
pub enum InstanceError {
    /// The version needs a runtime major version other than 8, 17 and 21.
    UnsupportedJava(u32),
}

/// The index of the first instance with `slug`, or -1.
pub open spec fn find_slug(s: Seq<Instance>, slug: Seq<char>) -> int
    decreases s.len(),
{
    if s.len() == 0 {
        -1
    } else if find_slug(s.drop_last(), slug) >= 0 {
        find_slug(s.drop_last(), slug)
    } else if s.last().slug@ == slug {
        s.len() - 1
    } else {
        -1
    }
}

/// `find_slug` gives the first instance with the slug, or -1 when none has it.
pub proof fn lemma_find_slug(s: Seq<Instance>, slug: Seq<char>)
    ensures
        -1 <= find_slug(s, slug) < s.len(),
        find_slug(s, slug) >= 0 ==> s[find_slug(s, slug)].slug@ == slug,
        forall|i: int| 0 <= i < s.len() && (find_slug(s, slug) < 0 || i < find_slug(s, slug))
            ==> (#[trigger] s[i]).slug@ != slug,
    decreases s.len(),
{
    if s.len() > 0 {
        lemma_find_slug(s.drop_last(), slug);
        assert forall|i: int| 0 <= i < s.len() && (find_slug(s, slug) < 0 || i < find_slug(s, slug))
            implies (#[trigger] s[i]).slug@ != slug by {
            if i < s.len() - 1 {
                assert(s[i] == s.drop_last()[i]);
            }
        }
    }
}

/// The instances whose slug is not `slug`, in order.
pub open spec fn without_slug(s: Seq<Instance>, slug: Seq<char>) -> Seq<Instance>
    decreases s.len(),
{
    if s.len() == 0 {
        s
    } else if s.last().slug@ == slug {
        without_slug(s.drop_last(), slug)
    } else {
        without_slug(s.drop_last(), slug).push(s.last())
    }
}

/// The runtime configured for a major version, with no extra arguments.
pub open spec fn java_for_spec(cfg: JavaConfig, major: u32) -> Option<(Seq<char>, u8)> {
    if major == 8 {
        Some((cfg.java_8_path@, 8u8))
    } else if major == 17 {
        Some((cfg.java_17_path@, 17u8))
    } else if major == 21 {
        Some((cfg.java_21_path@, 21u8))
    } else {
        None
    }
}

/// The runtime that a version needing `major` gets from the configuration.
pub fn java_for_version(cfg: &JavaConfig, major: u32) -> (r: Result<Java, InstanceError>)
    ensures
        java_for_spec(*cfg, major) is None <==> r is Err,
        r matches Err(e) ==> e == InstanceError::UnsupportedJava(major),
        r matches Ok(j) ==> java_for_spec(*cfg, major) == Some((j.path@, j.version)) && j.args@.len() == 0,
{
    if major == 8 {
        Ok(Java { path: cfg.java_8_path.clone(), args: Vec::new(), version: 8 })
    } else if major == 17 {
        Ok(Java { path: cfg.java_17_path.clone(), args: Vec::new(), version: 17 })
    } else if major == 21 {
        Ok(Java { path: cfg.java_21_path.clone(), args: Vec::new(), version: 21 })
    } else {
        Err(InstanceError::UnsupportedJava(major))
    }
}

impl InstanceConfig {
    /// The position of the first instance with `slug`.
    pub fn position(&self, slug: &str) -> (r: Option<usize>)
        ensures
            r is None <==> find_slug(self.instances@, slug@) < 0,
            r matches Some(i) ==> i == find_slug(self.instances@, slug@),
    {
        proof {
            lemma_find_slug(self.instances@, slug@);
        }
        let mut i: usize = 0;
        while i < self.instances.len()
            invariant
                0 <= i <= self.instances@.len(),
                forall|k: int| 0 <= k < i ==> (#[trigger] self.instances@[k]).slug@ != slug@,
            decreases self.instances.len() - i,
        {
            if eq_str(self.instances[i].slug.as_str(), slug) {
                proof {
                    lemma_find_slug(self.instances@, slug@);
                }
                return Some(i);
            }
            i += 1;
        }
        proof {
            lemma_find_slug(self.instances@, slug@);
        }
        None
    }

    /// The first instance with `slug`.
    pub fn get_instance(&self, slug: &str) -> (r: Option<&Instance>)
        ensures
            r is None <==> find_slug(self.instances@, slug@) < 0,
            r matches Some(i) ==> *i == self.instances@[find_slug(self.instances@, slug@)],
    {
        proof {
            lemma_find_slug(self.instances@, slug@);
        }
        match self.position(slug) {
            Some(i) => Some(&self.instances[i]),
            None => None,
        }
    }

    /// Replaces the first instance with the same slug; without one, nothing changes.
    pub fn update_instance(&mut self, instance: Instance)
        ensures
            ({
                let f = find_slug(old(self).instances@, instance.slug@);
                final(self).instances@ == if f >= 0 {
                    old(self).instances@.update(f, instance)
                } else {
                    old(self).instances@
                }
            }),
    {
        proof {
            lemma_find_slug(self.instances@, instance.slug@);
        }
        match self.position(instance.slug.as_str()) {
            Some(i) => {
                self.instances.set(i, instance);
            },
            None => {},
        }
    }

    /// Removes every instance with `slug`.
    pub fn delete_instance(&mut self, slug: &str)
        ensures
            final(self).instances@ == without_slug(old(self).instances@, slug@),
    {
        let mut rest: Vec<Instance> = Vec::new();
        std::mem::swap(&mut self.instances, &mut rest);
        let ghost orig = rest@;
        let total = rest.len();
        let mut k: usize = 0;
        proof {
            assert(orig.subrange(0, 0) =~= Seq::<Instance>::empty());
            assert(rest@ =~= orig.subrange(0, orig.len() as int));
        }
        while rest.len() > 0
            invariant
                total == orig.len(),
                k + rest@.len() == total,
                rest@ =~= orig.subrange(k as int, total as int),
                self.instances@ == without_slug(orig.subrange(0, k as int), slug@),
            decreases rest.len(),
        {
            let a = rest.remove(0);
            proof {
                assert(orig.subrange(0, k as int + 1).drop_last() =~= orig.subrange(0, k as int));
                assert(orig[k as int] == a);
            }
            if !eq_str(a.slug.as_str(), slug) {
                self.instances.push(a);
            }
            k += 1;
        }
        proof {
            assert(orig.subrange(0, total as int) =~= orig);
        }
    }

    /// Adds `instance` with the runtime that its version's `major` needs.
    pub fn add_instance(&mut self, instance: Instance, java_config: &JavaConfig, major: u32) -> (r:
        Result<(), InstanceError>)
        ensures
            r is Err <==> java_for_spec(*java_config, major) is None,
            r is Err ==> final(self).instances@ == old(self).instances@,
            r is Ok ==> ({
                let added = final(self).instances@.last();
                &&& final(self).instances@.len() == old(self).instances@.len() + 1
                &&& final(self).instances@.drop_last() == old(self).instances@
                &&& java_for_spec(*java_config, major) == Some((added.java.path@, added.java.version))
                &&& added.java.args@.len() == 0
                &&& added == (Instance { java: added.java, ..instance })
            }),
    {
        let java = java_for_version(java_config, major)?;
        let mut instance = instance;
        instance.java = java;
        self.instances.push(instance);
        proof {
            assert(self.instances@.drop_last() =~= old(self).instances@);
        }
        Ok(())
    }
}

impl Settings {
    /// Records that resources were acquired or the game once started: never undone.
    pub fn mark_launched(&mut self)
        ensures
            *final(self) == (Settings { has_launched: true, ..*old(self) }),
    {
        self.has_launched = true;
    }

    /// Records a finished session: `elapsed_secs` more time played (saturating),
    /// the exit time `exit_ms` as last played, and that the game has launched.
    pub fn record_session(&mut self, elapsed_secs: u64, exit_ms: i64)
        ensures
            *final(self) == after_session(*old(self), elapsed_secs, exit_ms),
    {
        self.time_played = self.time_played.saturating_add(elapsed_secs);
        self.last_played = Some(exit_ms);
        self.has_launched = true;
    }
}

/// The settings after a session of `elapsed_secs` that ended at `exit_ms`.
pub open spec fn after_session(s: Settings, elapsed_secs: u64, exit_ms: i64) -> Settings {
    Settings {
        time_played: if s.time_played + elapsed_secs > u64::MAX { u64::MAX } else {
            (s.time_played + elapsed_secs) as u64
        },
        last_played: Some(exit_ms),
        has_launched: true,
        ..s
    }
}

} // verus!
