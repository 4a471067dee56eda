use caf::package::{CompressedPackageContent, Package, PackageId};
use caf::pkgman::PackageManager;
use caf::worker::{
    check_providers, consumer_request, downloaded_package, get_provided_package_name,
    provider_reply, BootstrapAction, Bootstrapper,
};

#[test]
fn bootstrap_without_peers_fails() {
    let (_, action) = Bootstrapper::<String>::start(vec![]);
    match action {
        BootstrapAction::Finish(Err(e)) => assert_eq!(
            e.message(),
            "TODO: dynamic resolving of bootstrap peers. For now needs to be provided manually"
        ),
        _ => panic!("expected a failure"),
    }
}

#[test]
fn bootstrap_dials_every_peer_in_order_then_bootstraps() {
    let (mut b, action) = Bootstrapper::start(vec!["a", "b"]);
    assert!(matches!(action, BootstrapAction::Dial("a")));
    assert!(matches!(b.dial_done(Ok(())), BootstrapAction::Dial("b")));
    assert!(matches!(b.dial_done(Ok(())), BootstrapAction::Bootstrap));
    assert!(matches!(b.bootstrap_done(Ok(())), BootstrapAction::Finish(Ok(()))));
}

#[test]
fn bootstrap_stops_at_the_first_failed_dial() {
    let (mut b, _) = Bootstrapper::start(vec!["a", "b", "c"]);
    assert!(matches!(b.dial_done(Ok(())), BootstrapAction::Dial("b")));
    match b.dial_done(Err("unreachable".to_string())) {
        BootstrapAction::Finish(Err(e)) => {
            assert_eq!(e.message(), "expect dial to succeed");
            assert_eq!(e.source_message().unwrap(), "unreachable");
        },
        _ => panic!("expected a failure"),
    }
}

#[test]
fn bootstrap_query_failure_ends_joining() {
    let (mut b, _) = Bootstrapper::start(vec![1u8]);
    assert!(matches!(b.dial_done(Ok(())), BootstrapAction::Bootstrap));
    match b.bootstrap_done(Err("No known peers.".to_string())) {
        BootstrapAction::Finish(Err(e)) => assert_eq!(e.message(), "No known peers."),
        _ => panic!("expected a failure"),
    }
}

#[test]
fn provider_answers_only_what_it_has() {
    let id = PackageId { name: "widget".into(), version: "1.0".into() };
    let p = provider_reply(&id, Ok(vec![4, 2])).unwrap();
    assert_eq!(p.id, id);
    assert_eq!(p.content, CompressedPackageContent(vec![4, 2]));
    assert!(provider_reply(&id, Err("missing".to_string())).is_none());
    assert_eq!(get_provided_package_name(), "");
}

#[test]
fn consumer_fetches_the_fixed_version() {
    let id = consumer_request();
    assert_eq!(id.name, "");
    assert_eq!(id.version, "7.0");
}

#[test]
fn consumer_needs_providers() {
    let e = check_providers(&"widget".to_string(), 0).err().unwrap();
    assert_eq!(e.message(), "could not find providers for file widget");
    assert!(check_providers(&"widget".to_string(), 2).is_ok());
}

#[test]
fn consumer_installs_the_downloaded_contents_under_the_requested_id() {
    let pm = PackageManager::new("/srv".to_string(), true).unwrap();
    let requested = PackageId { name: "widget".into(), version: "7.0".into() };
    let delivered = Package {
        id: PackageId { name: "other".into(), version: "1".into() },
        content: CompressedPackageContent(vec![3, 3]),
    };
    let plan = downloaded_package(&pm, requested.clone(), Ok(delivered)).unwrap();
    assert_eq!(plan.package, requested);
    assert_eq!(plan.content, CompressedPackageContent(vec![3, 3]));
    assert_eq!(plan.content_path, "/srv/pkgs/widget/7.0/content.zip");
}

#[test]
fn consumer_reports_a_failed_download() {
    let pm = PackageManager::new("/srv".to_string(), true).unwrap();
    let requested = PackageId { name: "widget".into(), version: "7.0".into() };
    let e = downloaded_package(&pm, requested, Err("all providers failed".to_string())).err().unwrap();
    assert_eq!(e.message(), "downloading the package from the providers failed");
    assert_eq!(e.source_message().unwrap(), "all providers failed");
}
