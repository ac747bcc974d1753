//! What is checked and derived of the configuration at startup.

use vstd::prelude::*;
use crate::arch::{is_architecture, is_canonical_arch};
use crate::position::{first_position, lemma_first_position_is};
use crate::repo::AutoBuildOptions;
use crate::tool::strings_view;

verus! {

/// Why a configuration is refused.
#[derive(Debug)]
pub enum ConfigError {
    /// A supported architecture that is not a canonical tag.
    UnknownArchitecture(String),
}

impl ConfigError {
    /// The error in words.
    pub fn message(&self) -> (r: String)
        ensures
            r@ == match *self {
                ConfigError::UnknownArchitecture(name) => "Unsupported architecture in settings: "@
                    + name@,
            },
    {
        match self {
            ConfigError::UnknownArchitecture(name) => {
                let mut r = String::from_str("Unsupported architecture in settings: ");
                r.append(name.as_str());
                r
            },
        }
    }
}

/// Whether each of `names` is a canonical architecture tag, in order.
pub open spec fn known_archs(names: Seq<Seq<char>>) -> Seq<bool> {
    names.map_values(|name: Seq<char>| is_canonical_arch(name))
}

/// The number of permits of the build pool: the configured number of build
/// threads, or the number of CPUs of the host where that is 0.
pub open spec fn pool_size(n_build_threads: usize, host_cpus: usize) -> usize {
    if n_build_threads == 0 {
        host_cpus
    } else {
        n_build_threads
    }
}

/// The number of permits of the build pool on a host with `host_cpus` CPUs.
pub fn pool_size_on(n_build_threads: usize, host_cpus: usize) -> (r: usize)
    ensures
        r == pool_size(n_build_threads, host_cpus),
{
    if n_build_threads == 0 {
        host_cpus
    } else {
        n_build_threads
    }
}

/// `num_cpus::get`: the number of CPUs available to this process, which the
/// crate documents to be at least 1. It differs from host to host and can
/// differ from call to call, so no more is stated of it.
#[verifier::external_body]
fn host_cpus() -> (r: usize)
    ensures
        r >= 1,
{
    num_cpus::get()
}

impl AutoBuildOptions {
    /// Checks the configuration: every supported architecture must be a
    /// canonical tag. The first that is not is reported.
    pub fn validate(&self) -> (r: Result<(), ConfigError>)
        ensures
            match r {
                Ok(_) => forall|i: int|
                    0 <= i < self.supported_architectures@.len() ==> is_canonical_arch(
                        #[trigger] strings_view(self.supported_architectures@)[i],
                    ),
                Err(ConfigError::UnknownArchitecture(name)) => {
                    let k = first_position(
                        known_archs(strings_view(self.supported_architectures@)),
                        false,
                    );
                    k < self.supported_architectures@.len() && name@ == strings_view(
                        self.supported_architectures@,
                    )[k]
                },
            },
    {
        let ghost names = strings_view(self.supported_architectures@);
        let mut i: usize = 0;
        while i < self.supported_architectures.len()
            invariant
                i <= self.supported_architectures.len(),
                names == strings_view(self.supported_architectures@),
                forall|j: int| 0 <= j < i ==> is_canonical_arch(#[trigger] names[j]),
            decreases self.supported_architectures.len() - i,
        {
            assert(names[i as int] == self.supported_architectures@[i as int]@);
            if !is_architecture(self.supported_architectures[i].as_str()) {
                proof {
                    lemma_first_position_is(known_archs(names), false, i as int);
                }
                return Err(
                    ConfigError::UnknownArchitecture(self.supported_architectures[i].clone()),
                );
            }
            i += 1;
        }
        Ok(())
    }

    /// The number of permits of the build pool: the configured number of
    /// build threads, or what the host reports as its number of CPUs where
    /// that is 0. The pool is never without a permit.
    pub fn build_pool_size(&self) -> (r: usize)
        ensures
            exists|cpus: usize| cpus >= 1 && r == pool_size(self.n_build_threads, cpus),
            self.n_build_threads != 0 ==> r == self.n_build_threads,
            self.n_build_threads == 0 ==> r >= 1,
    {
        if self.n_build_threads == 0 {
            let cpus = host_cpus();
            let r = pool_size_on(0, cpus);
            assert(cpus >= 1 && r == pool_size(self.n_build_threads, cpus));
            r
        } else {
            assert(self.n_build_threads == pool_size(self.n_build_threads, 1));
            self.n_build_threads
        }
    }
}

} // verus!
