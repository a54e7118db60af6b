use safe_cargo::error::Error;
use safe_cargo::fetch::{DocumentFetch, DocumentKind, FetchAction, FetchEvent, FetchStage};

const KEY: &str = "RWQf6LRCGA9i53mlYecO4IzT51TGPpvWucNSCh1CBM0QTaLn73Y7GFO3";
const SIG: &str = "untrusted comment: signature from minisign secret key\nRUQf6LRCGA9i559r3g7V1qNyJDApGip8MfqcadIgT9CuhV3EMhHoN1mGTkUidF/z7SrlQgXdy8ofjb7bNJJylDOocrCo8KLzZwo=\ntrusted comment: timestamp:1556193335\tfile:test\ny/rUw2y8/hOUYjZU71eHp/Wo1KZ40fGy2VJEDl34XMJM+TX48Ss/17u3IvIfbVR1FkZZSNCisQbuQY+bHwhEBg==";

fn some(s: &str) -> Result<Option<String>, Error> {
    Ok(Some(s.to_string()))
}

fn step(f: &mut DocumentFetch, e: FetchEvent) -> FetchAction {
    assert!(f.awaits(&e));
    f.step(e)
}

#[test]
fn starts_with_the_cache() {
    let (f, a) = DocumentFetch::new(DocumentKind::Report, "demo", Some(KEY));
    assert!(matches!(a, FetchAction::ReadCachedDocument));
    assert_eq!(f.stage(), FetchStage::AwaitCachedDocument);
    assert!(!f.awaits(&FetchEvent::RemoteDocument(Ok(None))));
}

#[test]
fn verified_cache_hit_is_delivered() {
    let (mut f, _) = DocumentFetch::new(DocumentKind::Report, "demo", Some(KEY));
    assert!(matches!(step(&mut f, FetchEvent::CachedDocument(some("test"))), FetchAction::ReadCachedSignature));
    match step(&mut f, FetchEvent::CachedSignature(some(SIG))) {
        FetchAction::Deliver(d) => assert_eq!(d, "test"),
        other => panic!("unexpected {other:?}"),
    }
    assert_eq!(f.stage(), FetchStage::Finished);
}

#[test]
fn unsigned_cache_hit_without_key() {
    let (mut f, _) = DocumentFetch::new(DocumentKind::Manifest, "demo", None);
    match step(&mut f, FetchEvent::CachedDocument(some("{}"))) {
        FetchAction::Deliver(d) => assert_eq!(d, "{}"),
        other => panic!("unexpected {other:?}"),
    }
    assert_eq!(f.stage(), FetchStage::Finished);
}

#[test]
fn tampered_cached_report_is_evicted_and_refetched() {
    let (mut f, _) = DocumentFetch::new(DocumentKind::Report, "demo", Some(KEY));
    step(&mut f, FetchEvent::CachedDocument(some("tampered")));
    assert!(matches!(step(&mut f, FetchEvent::CachedSignature(some(SIG))), FetchAction::EvictCached));
    assert!(matches!(step(&mut f, FetchEvent::Evicted(Ok(()))), FetchAction::FetchRemoteDocument));
    assert!(matches!(step(&mut f, FetchEvent::RemoteDocument(some("test"))), FetchAction::FetchRemoteSignature));
    match step(&mut f, FetchEvent::RemoteSignature(some(SIG))) {
        FetchAction::StoreAndDeliver { document, signature } => {
            assert_eq!(document, "test");
            assert_eq!(signature.as_deref(), Some(SIG));
        }
        other => panic!("unexpected {other:?}"),
    }
}

#[test]
fn unsigned_cached_manifest_is_refetched_without_eviction() {
    let (mut f, _) = DocumentFetch::new(DocumentKind::Manifest, "demo", Some(KEY));
    step(&mut f, FetchEvent::CachedDocument(some("test")));
    assert!(matches!(step(&mut f, FetchEvent::CachedSignature(Ok(None))), FetchAction::FetchRemoteDocument));
    assert_eq!(f.stage(), FetchStage::AwaitRemoteDocument);
}

#[test]
fn registry_without_document() {
    let (mut f, _) = DocumentFetch::new(DocumentKind::Report, "demo", Some(KEY));
    assert!(matches!(step(&mut f, FetchEvent::CachedDocument(Ok(None))), FetchAction::FetchRemoteDocument));
    assert!(matches!(step(&mut f, FetchEvent::RemoteDocument(Ok(None))), FetchAction::Absent));
    assert_eq!(f.stage(), FetchStage::Finished);
}

#[test]
fn remote_document_without_signature_fails() {
    let (mut f, _) = DocumentFetch::new(DocumentKind::Report, "demo", Some(KEY));
    step(&mut f, FetchEvent::CachedDocument(Ok(None)));
    step(&mut f, FetchEvent::RemoteDocument(some("test")));
    match step(&mut f, FetchEvent::RemoteSignature(Ok(None))) {
        FetchAction::Fail(Error::ReportParse { name, reason }) => {
            assert_eq!(name, "demo");
            assert_eq!(reason, "report exists but signature is missing");
        }
        other => panic!("unexpected {other:?}"),
    }
    let (mut f, _) = DocumentFetch::new(DocumentKind::Manifest, "demo", Some(KEY));
    step(&mut f, FetchEvent::CachedDocument(Ok(None)));
    step(&mut f, FetchEvent::RemoteDocument(some("test")));
    match step(&mut f, FetchEvent::RemoteSignature(Ok(None))) {
        FetchAction::Fail(Error::ReportParse { reason, .. }) => {
            assert_eq!(reason, "manifest exists but signature is missing")
        }
        other => panic!("unexpected {other:?}"),
    }
}

#[test]
fn remote_document_with_bad_signature_fails() {
    let (mut f, _) = DocumentFetch::new(DocumentKind::Report, "demo", Some(KEY));
    step(&mut f, FetchEvent::CachedDocument(Ok(None)));
    step(&mut f, FetchEvent::RemoteDocument(some("forged")));
    match step(&mut f, FetchEvent::RemoteSignature(some(SIG))) {
        FetchAction::Fail(Error::ReportParse { name, reason }) => {
            assert_eq!(name, "<signature>");
            assert!(reason.starts_with("signature verification failed: "));
        }
        other => panic!("unexpected {other:?}"),
    }
}

#[test]
fn remote_document_without_key_is_stored_unsigned() {
    let (mut f, _) = DocumentFetch::new(DocumentKind::Report, "demo", None);
    step(&mut f, FetchEvent::CachedDocument(Ok(None)));
    match step(&mut f, FetchEvent::RemoteDocument(some("{\"a\":1}"))) {
        FetchAction::StoreAndDeliver { document, signature } => {
            assert_eq!(document, "{\"a\":1}");
            assert!(signature.is_none());
        }
        other => panic!("unexpected {other:?}"),
    }
}

#[test]
fn failures_end_the_fetch() {
    let (mut f, _) = DocumentFetch::new(DocumentKind::Report, "demo", Some(KEY));
    match step(&mut f, FetchEvent::CachedDocument(Err(Error::Io("disk".into())))) {
        FetchAction::Fail(Error::Io(m)) => assert_eq!(m, "disk"),
        other => panic!("unexpected {other:?}"),
    }
    assert_eq!(f.stage(), FetchStage::Finished);
    assert!(!f.awaits(&FetchEvent::CachedDocument(Ok(None))));
}
