//! The user's preferences: the profile, region and resource that were used
//! last. Reading and writing the preference file is left to the caller.

use crate::resource::registry::opt_text;
use vstd::prelude::*;

verus! {

/// The user's preferences.
#[derive(Debug, Clone)]
pub struct Config {
    /// The profile used last.
    pub profile: Option<String>,
    /// The region used last.
    pub region: Option<String>,
    /// The resource viewed last.
    pub last_resource: Option<String>,
}

/// The mathematical value of a [`Config`].
pub struct ConfigView {
    pub profile: Option<Seq<char>>,
    pub region: Option<Seq<char>>,
    pub last_resource: Option<Seq<char>>,
}

impl View for Config {
    type V = ConfigView;

    open spec fn view(&self) -> ConfigView {
        ConfigView {
            profile: opt_text(self.profile),
            region: opt_text(self.region),
            last_resource: opt_text(self.last_resource),
        }
    }
}

impl Default for Config {
    /// No preference at all.
    fn default() -> (r: Self)
        ensures
            r@ == (ConfigView { profile: None, region: None, last_resource: None }),
    {
        Config { profile: None, region: None, last_resource: None }
    }
}

/// The first of the given choices that is there, or `fallback`.
pub open spec fn first_of(
    first: Option<Seq<char>>,
    second: Option<Seq<char>>,
    third: Option<Seq<char>>,
    fallback: Seq<char>,
) -> Seq<char> {
    match first {
        Some(s) => s,
        None => match second {
            Some(s) => s,
            None => match third {
                Some(s) => s,
                None => fallback,
            },
        },
    }
}

impl Config {
    /// Remembers `profile` as the profile used last.
    pub fn set_profile(&mut self, profile: &str)
        ensures
            final(self)@ == (ConfigView { profile: Some(profile@), ..old(self)@ }),
    {
        self.profile = Some(profile.to_owned());
    }

    /// Remembers `region` as the region used last.
    pub fn set_region(&mut self, region: &str)
        ensures
            final(self)@ == (ConfigView { region: Some(region@), ..old(self)@ }),
    {
        self.region = Some(region.to_owned());
    }

    /// Remembers `resource` as the resource viewed last.
    pub fn set_last_resource(&mut self, resource: &str)
        ensures
            final(self)@ == (ConfigView { last_resource: Some(resource@), ..old(self)@ }),
    {
        self.last_resource = Some(resource.to_owned());
    }

    /// The profile to start with: the one that the environment names in
    /// `env_profile`, else the remembered one, else `default`.
    pub fn effective_profile(&self, env_profile: Option<String>) -> (r: String)
        ensures
            r@ == first_of(opt_text(env_profile), self@.profile, None, "default"@),
    {
        match env_profile {
            Some(p) => p,
            None => match &self.profile {
                Some(p) => p.clone(),
                None => "default".to_owned(),
            },
        }
    }

    /// The region to start with: the one that the environment names in
    /// `env_region`, else the one it names in `env_default_region`, else the
    /// remembered one, else `us-east-1`.
    pub fn effective_region(
        &self,
        env_region: Option<String>,
        env_default_region: Option<String>,
    ) -> (r: String)
        ensures
            r@ == first_of(
                opt_text(env_region),
                opt_text(env_default_region),
                self@.region,
                "us-east-1"@,
            ),
    {
        match env_region {
            Some(r) => r,
            None => match env_default_region {
                Some(r) => r,
                None => match &self.region {
                    Some(r) => r.clone(),
                    None => "us-east-1".to_owned(),
                },
            },
        }
    }
}

} // verus!
