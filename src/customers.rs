//! Customer accounts and the domains they own.
use vstd::prelude::*;

verus! {

/// One domain of a customer.
#[derive(Clone, Debug)]
pub struct DomainConfig {
    /// The domain name, which the cache is keyed by.
    pub domain: String,
    /// The registrar account it is held under, shown in reports.
    pub account: String,
    pub autorenew: bool,
    pub disabled: bool,
}

impl DomainConfig {
    /// A field-by-field copy.
    pub fn duplicate(&self) -> (r: DomainConfig)
        ensures
            r == *self,
    {
        DomainConfig {
            domain: self.domain.clone(),
            account: self.account.clone(),
            autorenew: self.autorenew,
            disabled: self.disabled,
        }
    }
}

/// A customer account: its notification addresses and its domains, in order.
#[derive(Clone, Debug)]
pub struct CustomerConfig {
    pub name: String,
    pub disabled: bool,
    pub emails: Vec<String>,
    pub domains: Vec<DomainConfig>,
}

} // verus!
