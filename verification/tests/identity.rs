use lib::credentials::{SignedAppIdAssigner, AppBinary, ShortId, OptionalCredentials, AppCredentialsPolicy, Credentials, CheckResult};
use lib::bl_reboot::{BootloaderReboot, RebootOutcome, DFU_MAGIC};
use lib::gpbr::{Gpbr, GpbrWrite};
use lib::error::{CommandReturn, ErrorCode};

fn app(signed: bool, name: Option<&str>) -> AppBinary {
    AppBinary { credential_accepted: signed, package_name: name.map(|n| n.to_string()) }
}

#[test]
fn name_id_is_fnv1a() {
    assert_eq!(SignedAppIdAssigner::name_id(""), 0x811C_9DC5);
    assert_eq!(SignedAppIdAssigner::name_id("a"), 0xE40C_292C);
    assert_eq!(SignedAppIdAssigner::name_id("foobar"), 0xBF9C_F968);
}

#[test]
fn only_signed_apps_get_fixed_ids() {
    let a = SignedAppIdAssigner::new();
    match a.to_short_id(&app(true, Some("uds"))) {
        ShortId::Fixed(n) => assert_eq!(n, SignedAppIdAssigner::name_id("uds")),
        ShortId::LocallyUnique => panic!("a signed app gets a fixed identity"),
    }
    match a.to_short_id(&app(true, None)) {
        ShortId::Fixed(n) => assert_eq!(n, 0x811C_9DC5),
        ShortId::LocallyUnique => panic!("a signed app gets a fixed identity"),
    }
    assert!(matches!(a.to_short_id(&app(false, Some("uds"))), ShortId::LocallyUnique));
}

#[test]
fn unsigned_apps_never_conflict() {
    let a = SignedAppIdAssigner::new();
    assert!(a.different_identifier(&app(false, Some("blink")), &app(false, Some("blink"))));
    assert!(!a.different_identifier(&app(true, Some("uds")), &app(true, Some("uds"))));
    assert!(a.different_identifier(&app(true, Some("uds")), &app(true, Some("other"))));
    assert!(a.different_identifier_process(&app(false, None), ShortId::LocallyUnique));
    assert!(!a.different_identifier_process(&app(true, Some("a")), ShortId::Fixed(0xE40C_292C)));
    assert!(a.different_identifier_processes(ShortId::LocallyUnique, ShortId::LocallyUnique));
    assert!(!a.different_identifier_processes(ShortId::Fixed(3), ShortId::Fixed(3)));
    assert!(!ShortId::LocallyUnique.same_id(&ShortId::LocallyUnique));
}

struct Refusing {
    has_client: bool,
}

impl AppCredentialsPolicy for Refusing {
    fn set_client(&mut self) {
        self.has_client = true;
    }

    fn require_credentials(&self) -> bool {
        true
    }

    fn check_credentials(&self, credentials: Credentials, _integrity_region: &[u8]) -> Result<(), (ErrorCode, Credentials)> {
        Err((ErrorCode::NOSUPPORT, credentials))
    }
}

#[test]
fn optional_credentials_do_not_require_any() {
    let mut p = OptionalCredentials::new(Refusing { has_client: false });
    p.setup();
    assert!(p.inner.has_client);
    assert!(!p.require_credentials());
    let (e, c) = p.check_credentials(Credentials { format: 3, data: vec![1, 2] }, &[0; 4]).unwrap_err();
    assert_eq!(e, ErrorCode::NOSUPPORT);
    assert_eq!(c.data, vec![1, 2]);
    assert!(p.check_done(Ok(CheckResult::Accept), Credentials { format: 3, data: vec![] }).is_none());
    p.set_client();
    let done = p.check_done(Ok(CheckResult::Pass), Credentials { format: 1, data: vec![9] }).unwrap();
    assert_eq!(done.result, Ok(CheckResult::Pass));
    assert_eq!(done.credentials.data, vec![9]);
}

#[test]
fn reboot_is_for_the_allowed_app_only() {
    let allowed = SignedAppIdAssigner::new().to_short_id(&app(true, Some("uds")));
    let r = BootloaderReboot::new(Gpbr::new(), allowed);
    let other = ShortId::Fixed(7);
    assert_eq!(r.command(0, 0, 0, ShortId::LocallyUnique), RebootOutcome::Reply(CommandReturn::Success));
    assert_eq!(r.command(1, 0, 0, allowed), RebootOutcome::Reply(CommandReturn::SuccessU32(1)));
    assert_eq!(r.command(1, 0, 0, other), RebootOutcome::Reply(CommandReturn::SuccessU32(0)));
    assert_eq!(
        r.command(2, 0, 0, ShortId::LocallyUnique),
        RebootOutcome::Reply(CommandReturn::Failure(ErrorCode::NOSUPPORT))
    );
    assert_eq!(r.command(3, 0, 0, other), RebootOutcome::Reply(CommandReturn::Failure(ErrorCode::NOSUPPORT)));
    assert_eq!(
        r.command(2, 0, 0, allowed),
        RebootOutcome::Reset(GpbrWrite { address: 0x400E_18AC, value: DFU_MAGIC })
    );
    assert_eq!(r.command(3, 0, 0, allowed), RebootOutcome::Reset(GpbrWrite { address: 0x400E_18AC, value: 0 }));
    assert_eq!(r.command(4, 0, 0, allowed), RebootOutcome::Reply(CommandReturn::Failure(ErrorCode::NOSUPPORT)));
    assert_eq!(r.allocate_grant(), Ok(()));
}

#[test]
fn an_unsigned_allowed_identity_admits_nobody() {
    let r = BootloaderReboot::new(Gpbr::new(), ShortId::LocallyUnique);
    assert_eq!(r.command(1, 0, 0, ShortId::LocallyUnique), RebootOutcome::Reply(CommandReturn::SuccessU32(0)));
}
