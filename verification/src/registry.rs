use vstd::prelude::*;

verus! {

/// Which provider list a batch runs with. Fixed at the start of a batch.
#[derive(Clone, Copy, PartialEq, Eq, Structural, Debug)]
pub enum RunMode {
    /// Only providers that need no credential.
    Free,
    /// Every configured provider, credentialed ones included.
    All,
}

/// One external data provider. Each adapter is an external collaborator; the
/// core knows a provider only by its identity and whether it needs a
/// credential.
#[derive(Clone, Copy, PartialEq, Eq, Structural, Debug)]
pub enum ProviderId {
    AnubisDb,
    BinaryEdge,
    AlienVault,
    BufferOverTls,
    BufferOverDns,
    CertSpotter,
    CrtSh,
    ThreatCrowd,
    UrlScan,
    VirusTotal,
    ThreatMiner,
    Sublister,
    Wayback,
    Facebook,
    Spyse,
    C99,
    IntelX,
    PassiveTotal,
    HackerTarget,
}

/// Whether a provider requires an API credential to be queried.
pub open spec fn spec_needs_credential(p: ProviderId) -> bool {
    match p {
        ProviderId::BinaryEdge => true,
        ProviderId::Facebook => true,
        ProviderId::Spyse => true,
        ProviderId::C99 => true,
        ProviderId::IntelX => true,
        ProviderId::PassiveTotal => true,
        _ => false,
    }
}

#[verifier::when_used_as_spec(spec_needs_credential)]
pub fn needs_credential(p: ProviderId) -> (r: bool)
    ensures
        r == spec_needs_credential(p),
{
    match p {
        ProviderId::BinaryEdge => true,
        ProviderId::Facebook => true,
        ProviderId::Spyse => true,
        ProviderId::C99 => true,
        ProviderId::IntelX => true,
        ProviderId::PassiveTotal => true,
        _ => false,
    }
}

/// The subsequence of providers that need no credential, in order.
pub open spec fn free_subseq(s: Seq<ProviderId>) -> Seq<ProviderId>
    decreases s.len(),
{
    if s.len() == 0 {
        Seq::empty()
    } else {
        free_subseq(s.drop_last()) + if !spec_needs_credential(s.last()) {
            seq![s.last()]
        } else {
            Seq::empty()
        }
    }
}

/// No provider in the free subsequence needs a credential.
pub proof fn lemma_free_subseq_no_credential(s: Seq<ProviderId>)
    ensures
        forall|i: int|
            0 <= i < free_subseq(s).len() ==> !spec_needs_credential(#[trigger] free_subseq(s)[i]),
    decreases s.len(),
{
    if s.len() > 0 {
        lemma_free_subseq_no_credential(s.drop_last());
        assert forall|i: int|
            0 <= i < free_subseq(s).len() implies !spec_needs_credential(
            #[trigger] free_subseq(s)[i],
        ) by {
            if i < free_subseq(s.drop_last()).len() {
                assert(free_subseq(s)[i] == free_subseq(s.drop_last())[i]);
            } else {
                assert(free_subseq(s)[i] == s.last());
            }
        }
    }
}

/// Every provider in the free subsequence stands in the full list: the "all"
/// list is a superset of the "free" list.
pub proof fn lemma_free_subseq_subset(s: Seq<ProviderId>)
    ensures
        forall|p: ProviderId| free_subseq(s).contains(p) ==> s.contains(p),
    decreases s.len(),
{
    if s.len() > 0 {
        lemma_free_subseq_subset(s.drop_last());
        assert forall|p: ProviderId| free_subseq(s).contains(p) implies s.contains(p) by {
            let i = choose|i: int|
                0 <= i < free_subseq(s).len() && #[trigger] free_subseq(s)[i] == p;
            if i < free_subseq(s.drop_last()).len() {
                assert(free_subseq(s.drop_last())[i] == p);
                assert(free_subseq(s.drop_last()).contains(p));
                assert(s.drop_last().contains(p));
                let j = choose|j: int|
                    0 <= j < s.drop_last().len() && #[trigger] s.drop_last()[j] == p;
                assert(s.drop_last()[j] == s[j]);
                assert(s[j] == p);
                assert(s.contains(p));
            } else {
                assert(free_subseq(s)[i] == s.last());
                assert(s[s.len() - 1] == p);
                assert(s.contains(p));
            }
        }
    }
}

/// The declarative mapping from run mode to the ordered list of providers to
/// invoke. Built once at startup and passed into the batch scheduler; no
/// global state.
pub struct Registry {
    pub providers: Vec<ProviderId>,
}

impl Registry {
    /// The list a given mode selects: everything for All, the credential-free
    /// subsequence for Free.
    pub open spec fn selected(self, mode: RunMode) -> Seq<ProviderId> {
        match mode {
            RunMode::All => self.providers@,
            RunMode::Free => free_subseq(self.providers@),
        }
    }

    pub fn new(providers: Vec<ProviderId>) -> (r: Registry)
        ensures
            r.providers@ == providers@,
    {
        Registry { providers }
    }

    /// The ordered provider list for one run mode. Under Free no selected
    /// provider needs a credential; under All the full registry is selected.
    pub fn providers_for(&self, mode: RunMode) -> (r: Vec<ProviderId>)
        ensures
            r@ == self.selected(mode),
            mode == RunMode::Free ==> forall|i: int|
                0 <= i < r@.len() ==> !spec_needs_credential(#[trigger] r@[i]),
    {
        let n = self.providers.len();
        let mut r: Vec<ProviderId> = Vec::new();
        match mode {
            RunMode::All => {
                let mut i: usize = 0;
                while i < n
                    invariant
                        n == self.providers@.len(),
                        i <= n,
                        r@ == self.providers@.take(i as int),
                    decreases n - i,
                {
                    r.push(self.providers[i]);
                    proof {
                        assert(r@ =~= self.providers@.take(i + 1));
                    }
                    i += 1;
                }
                proof {
                    assert(self.providers@.take(n as int) =~= self.providers@);
                }
            },
            RunMode::Free => {
                let mut i: usize = 0;
                while i < n
                    invariant
                        n == self.providers@.len(),
                        i <= n,
                        r@ == free_subseq(self.providers@.take(i as int)),
                    decreases n - i,
                {
                    let p = self.providers[i];
                    if !needs_credential(p) {
                        r.push(p);
                    }
                    proof {
                        assert(self.providers@.take(i + 1).drop_last() =~= self.providers@.take(
                            i as int,
                        ));
                        assert(self.providers@.take(i + 1).last() == self.providers@[i as int]);
                        assert(r@ =~= free_subseq(self.providers@.take(i + 1)));
                    }
                    i += 1;
                }
                proof {
                    assert(self.providers@.take(n as int) =~= self.providers@);
                    lemma_free_subseq_no_credential(self.providers@);
                }
            },
        }
        r
    }
}

/// Mode selection is monotone: whatever Free selects, All selects too.
pub proof fn lemma_all_superset_of_free(reg: Registry)
    ensures
        forall|p: ProviderId|
            reg.selected(RunMode::Free).contains(p) ==> reg.selected(RunMode::All).contains(p),
{
    lemma_free_subseq_subset(reg.providers@);
}

/// The ordered provider sequence the tool ships with: thirteen open providers
/// and six that require a credential.
pub open spec fn default_provider_order() -> Seq<ProviderId> {
    seq![
        ProviderId::AnubisDb,
        ProviderId::BinaryEdge,
        ProviderId::AlienVault,
        ProviderId::BufferOverTls,
        ProviderId::BufferOverDns,
        ProviderId::CertSpotter,
        ProviderId::CrtSh,
        ProviderId::ThreatCrowd,
        ProviderId::UrlScan,
        ProviderId::VirusTotal,
        ProviderId::ThreatMiner,
        ProviderId::Sublister,
        ProviderId::Wayback,
        ProviderId::Facebook,
        ProviderId::Spyse,
        ProviderId::C99,
        ProviderId::IntelX,
        ProviderId::PassiveTotal,
        ProviderId::HackerTarget,
    ]
}

/// Builds the registry of every configured provider, in the fixed order.
pub fn default_registry() -> (r: Registry)
    ensures
        r.providers@ =~= default_provider_order(),
{
    let mut v: Vec<ProviderId> = Vec::new();
    v.push(ProviderId::AnubisDb);
    v.push(ProviderId::BinaryEdge);
    v.push(ProviderId::AlienVault);
    v.push(ProviderId::BufferOverTls);
    v.push(ProviderId::BufferOverDns);
    v.push(ProviderId::CertSpotter);
    v.push(ProviderId::CrtSh);
    v.push(ProviderId::ThreatCrowd);
    v.push(ProviderId::UrlScan);
    v.push(ProviderId::VirusTotal);
    v.push(ProviderId::ThreatMiner);
    v.push(ProviderId::Sublister);
    v.push(ProviderId::Wayback);
    v.push(ProviderId::Facebook);
    v.push(ProviderId::Spyse);
    v.push(ProviderId::C99);
    v.push(ProviderId::IntelX);
    v.push(ProviderId::PassiveTotal);
    v.push(ProviderId::HackerTarget);
    Registry::new(v)
}

} // verus!
