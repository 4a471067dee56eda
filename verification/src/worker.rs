use vstd::prelude::*;

use crate::errors::{CafError, CafErrorView};
use crate::package::{Package, PackageId, PackageIdView, PackageView};
use crate::pkgman::{retrieved_package, InstallPlan, PackageManager};

verus! {

/// The message of the error given when no bootstrap peer is configured.
pub open spec fn no_bootstrap_peers_message() -> Seq<char> {
    "TODO: dynamic resolving of bootstrap peers. For now needs to be provided manually"@
}

/// The message of the error given when a bootstrap peer cannot be dialed.
pub open spec fn dial_failed_message() -> Seq<char> {
    "expect dial to succeed"@
}

/// What joining the network asks for next.
#[derive(Debug)]
pub enum BootstrapAction<P> {
    /// Dial this peer and report the outcome.
    Dial(P),
    /// Start the bootstrap query and report the outcome.
    Bootstrap,
    /// Joining is over, with this outcome.
    Finish(Result<(), CafError>),
}

/// Where joining the network stands.
#[derive(Clone, Copy, Debug, PartialEq, Eq, Structural)]
pub enum BootstrapPhase {
    /// A peer is being dialed.
    Dialing,
    /// The bootstrap query runs.
    Bootstrapping,
    /// Joining is over.
    Finished,
}

/// Joining the network: the configured peers are dialed one after another,
/// then the bootstrap query is started. The first failure ends it.
pub struct Bootstrapper<P> {
    peers: Ghost<Seq<P>>,
    dialed: Ghost<Seq<P>>,
    current: Ghost<Option<P>>,
    remaining: Vec<P>,
    phase: BootstrapPhase,
}

/// Where joining the network stands, as values: the configured peers, those
/// dialed so far, the one being dialed, those still to dial after it, and the
/// phase.
pub struct BootstrapperView<P> {
    pub peers: Seq<P>,
    pub dialed: Seq<P>,
    pub current: Option<P>,
    pub remaining: Seq<P>,
    pub phase: BootstrapPhase,
}

impl<P> View for Bootstrapper<P> {
    type V = BootstrapperView<P>;

    closed spec fn view(&self) -> BootstrapperView<P> {
        BootstrapperView {
            peers: self.peers@,
            dialed: self.dialed@,
            current: self.current@,
            remaining: self.remaining@,
            phase: self.phase,
        }
    }
}

/// The peers are dialed in the order they were configured: while dialing, the
/// peers dialed, the one being dialed and those still to dial are the
/// configured ones; once bootstrapping, every configured peer was dialed.
pub open spec fn bootstrap_progress<P>(v: BootstrapperView<P>) -> bool {
    &&& v.phase == BootstrapPhase::Dialing ==> v.current is Some && v.dialed + seq![v.current->Some_0]
        + v.remaining == v.peers
    &&& v.phase == BootstrapPhase::Bootstrapping ==> v.dialed == v.peers
}

impl<P> Bootstrapper<P> {
    #[verifier::type_invariant]
    closed spec fn progress(self) -> bool {
        bootstrap_progress(self@)
    }

    /// Where joining stands.
    pub fn phase(&self) -> (p: BootstrapPhase)
        ensures
            p == self@.phase,
    {
        self.phase
    }

    /// Ends joining and hands out the peers that were still to dial.
    fn take_remaining(&mut self) -> (r: Vec<P>)
        ensures
            r@ == old(self)@.remaining,
            final(self)@.phase == BootstrapPhase::Finished,
    {
        let mut taken = Bootstrapper {
            peers: Ghost(Seq::empty()),
            dialed: Ghost(Seq::empty()),
            current: Ghost(None),
            remaining: Vec::new(),
            phase: BootstrapPhase::Finished,
        };
        std::mem::swap(&mut taken, self);
        let Bootstrapper { remaining, .. } = taken;
        remaining
    }

    /// Starts joining the network through `peers`: the first peer is to be
    /// dialed, or, where there is none, joining fails at once.
    pub fn start(peers: Vec<P>) -> (r: (Bootstrapper<P>, BootstrapAction<P>))
        ensures
            r.0@.peers == peers@,
            r.0@.dialed == Seq::<P>::empty(),
            peers@.len() == 0 ==> r.0@.phase == BootstrapPhase::Finished && r.1 is Finish
                && r.1->Finish_0 is Err && r.1->Finish_0->Err_0@ == (CafErrorView {
                message: no_bootstrap_peers_message(),
                source: None,
            }),
            peers@.len() > 0 ==> r.0@.phase == BootstrapPhase::Dialing && r.1
                == BootstrapAction::<P>::Dial(peers@[0]) && r.0@.current == Some(peers@[0])
                && r.0@.remaining == peers@.drop_first(),
    {
        let ghost all = peers@;
        let mut remaining = peers;
        if remaining.len() == 0 {
            let e = CafError::new(
                "TODO: dynamic resolving of bootstrap peers. For now needs to be provided manually",
            );
            (
                Bootstrapper {
                    peers: Ghost(all),
                    dialed: Ghost(Seq::empty()),
                    current: Ghost(None),
                    remaining,
                    phase: BootstrapPhase::Finished,
                },
                BootstrapAction::Finish(Err(e)),
            )
        } else {
            let first = remaining.remove(0);
            assert(remaining@ =~= all.drop_first());
            assert(Seq::<P>::empty() + seq![first] + remaining@ =~= all);
            (
                Bootstrapper {
                    peers: Ghost(all),
                    dialed: Ghost(Seq::empty()),
                    current: Ghost(Some(first)),
                    remaining,
                    phase: BootstrapPhase::Dialing,
                },
                BootstrapAction::Dial(first),
            )
        }
    }

    /// The dial of the peer being dialed gave `result`. A failure ends joining
    /// with an error that carries it; a success moves on to the next peer, or
    /// to the bootstrap query after the last one.
    pub fn dial_done(&mut self, result: Result<(), String>) -> (a: BootstrapAction<P>)
        requires
            old(self)@.phase == BootstrapPhase::Dialing,
        ensures
            final(self)@.peers == old(self)@.peers,
            result matches Err(e) ==> final(self)@.phase == BootstrapPhase::Finished && a is Finish
                && a->Finish_0 is Err && a->Finish_0->Err_0@ == (CafErrorView {
                message: dial_failed_message(),
                source: Some(e@),
            }),
            result is Ok ==> final(self)@.dialed == old(self)@.dialed.push(
                old(self)@.current->Some_0,
            ),
            result is Ok && old(self)@.remaining.len() > 0 ==> final(self)@.phase
                == BootstrapPhase::Dialing && a == BootstrapAction::<P>::Dial(
                old(self)@.remaining[0],
            ) && final(self)@.current == Some(old(self)@.remaining[0]) && final(self)@.remaining
                == old(self)@.remaining.drop_first(),
            result is Ok && old(self)@.remaining.len() == 0 ==> final(self)@.phase
                == BootstrapPhase::Bootstrapping && a is Bootstrap,
    {
        proof {
            use_type_invariant(&*self);
        }
        let ghost peers = self.peers@;
        let ghost dialed = self.dialed@;
        let ghost current = self.current@;
        match result {
            Err(e) => {
                let remaining = self.take_remaining();
                *self = Bootstrapper {
                    peers: Ghost(peers),
                    dialed: Ghost(dialed),
                    current: Ghost(current),
                    remaining,
                    phase: BootstrapPhase::Finished,
                };
                BootstrapAction::Finish(Err(CafError::with_source("expect dial to succeed", e)))
            },
            Ok(()) => {
                let mut remaining = self.take_remaining();
                let ghost now_dialed = dialed.push(current->Some_0);
                if remaining.len() > 0 {
                    let ghost before = remaining@;
                    let next = remaining.remove(0);
                    assert(remaining@ =~= before.drop_first());
                    assert(now_dialed + seq![next] + remaining@ =~= dialed + seq![current->Some_0]
                        + before);
                    *self = Bootstrapper {
                        peers: Ghost(peers),
                        dialed: Ghost(now_dialed),
                        current: Ghost(Some(next)),
                        remaining,
                        phase: BootstrapPhase::Dialing,
                    };
                    BootstrapAction::Dial(next)
                } else {
                    assert(now_dialed =~= dialed + seq![current->Some_0] + remaining@);
                    *self = Bootstrapper {
                        peers: Ghost(peers),
                        dialed: Ghost(now_dialed),
                        current: Ghost(None),
                        remaining,
                        phase: BootstrapPhase::Bootstrapping,
                    };
                    BootstrapAction::Bootstrap
                }
            },
        }
    }

    /// The bootstrap query gave `result`: joining ends with it, the error
    /// given by its text. Joining succeeds only once every configured peer
    /// was dialed.
    pub fn bootstrap_done(&mut self, result: Result<(), String>) -> (a: BootstrapAction<P>)
        requires
            old(self)@.phase == BootstrapPhase::Bootstrapping,
        ensures
            final(self)@.phase == BootstrapPhase::Finished,
            final(self)@.peers == old(self)@.peers,
            final(self)@.dialed == old(self)@.dialed,
            old(self)@.dialed == old(self)@.peers,
            result is Ok ==> a is Finish && a->Finish_0 is Ok,
            result matches Err(e) ==> a is Finish && a->Finish_0 is Err && a->Finish_0->Err_0@ == (
            CafErrorView { message: e@, source: None }),
    {
        proof {
            use_type_invariant(&*self);
        }
        let ghost peers = self.peers@;
        let ghost dialed = self.dialed@;
        let ghost current = self.current@;
        let remaining = self.take_remaining();
        *self = Bootstrapper {
            peers: Ghost(peers),
            dialed: Ghost(dialed),
            current: Ghost(current),
            remaining,
            phase: BootstrapPhase::Finished,
        };
        match result {
            Ok(()) => BootstrapAction::Finish(Ok(())),
            Err(e) => BootstrapAction::Finish(Err(CafError::new(e.as_str()))),
        }
    }
}

/// The name under which this node provides its packages.
pub open spec fn provided_package_name() -> Seq<char> {
    ""@
}

/// The name under which this node provides its packages.
pub fn get_provided_package_name() -> (n: String)
    ensures
        n@ == provided_package_name(),
{
    String::from_str("")
}

/// The answer to a request for `request` from another peer, from what the
/// read of its contents gave: the package where the read succeeded, no answer
/// otherwise.
pub fn provider_reply(request: &PackageId, read: Result<Vec<u8>, String>) -> (r: Option<Package>)
    ensures
        read is Ok <==> r is Some,
        r matches Some(p) ==> p@ == (PackageView { id: request@, content: read->Ok_0@ }),
{
    match retrieved_package(request, read) {
        Ok(p) => Some(p),
        Err(_) => None,
    }
}

/// The package version that the consumer fetches.
pub open spec fn consumed_package() -> PackageIdView {
    PackageIdView { name: ""@, version: "7.0"@ }
}

/// The package version that the consumer fetches.
pub fn consumer_request() -> (id: PackageId)
    ensures
        id@ == consumed_package(),
{
    PackageId { name: String::from_str(""), version: String::from_str("7.0") }
}

/// The message of the error given when no provider of `name` is found.
pub open spec fn no_providers_message(name: Seq<char>) -> Seq<char> {
    "could not find providers for file "@ + name
}

/// The message of the error given when no provider delivered the package.
pub open spec fn download_failed_message() -> Seq<char> {
    "downloading the package from the providers failed"@
}

/// Whether fetching `name` can go on with `provider_count` providers found:
/// an error where none was found.
pub fn check_providers(name: &String, provider_count: usize) -> (r: Result<(), CafError>)
    ensures
        provider_count > 0 <==> r is Ok,
        r matches Err(e) ==> e@ == (CafErrorView {
            message: no_providers_message(name@),
            source: None,
        }),
{
    if provider_count == 0 {
        let mut message = String::from_str("could not find providers for file ");
        message.append(name.as_str());
        Err(CafError::new(message.as_str()))
    } else {
        Ok(())
    }
}

/// What to install once the download of `package_id` gave `download` (the
/// first package a provider delivered, or the last error): the package with
/// the requested id and the delivered contents, or an error that carries the
/// download's.
pub fn downloaded_package(
    pkgman: &PackageManager,
    package_id: PackageId,
    download: Result<Package, String>,
) -> (r: Result<InstallPlan, CafError>)
    ensures
        download is Ok <==> r is Ok,
        r matches Ok(plan) ==> plan@ == crate::pkgman::install_plan_of(
            pkgman@,
            PackageView { id: package_id@, content: download->Ok_0.content@ },
        ),
        r matches Err(e) ==> e@ == (CafErrorView {
            message: download_failed_message(),
            source: Some(download->Err_0@),
        }),
{
    match download {
        Ok(p) => Ok(pkgman.install_plan(Package { id: package_id, content: p.content })),
        Err(e) => Err(CafError::with_source("downloading the package from the providers failed", e)),
    }
}

} // verus!
