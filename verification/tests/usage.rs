use shuji::usage::{notify, UsageUpdate, UsageUpdateKind};

#[test]
fn notify_without_sender_does_not_panic() {
    notify(None, "Zhongshuling", UsageUpdateKind::Token);
}

#[test]
fn notify_with_a_sender_delivers_the_notice() {
    let (tx, mut rx) = tokio::sync::mpsc::unbounded_channel::<UsageUpdate>();
    notify(Some(&tx), "Neige", UsageUpdateKind::Context);
    let u = rx.try_recv().unwrap();
    assert_eq!(u.role, "Neige");
    assert_eq!(u.kind, UsageUpdateKind::Context);
}

#[test]
fn notify_after_the_receiver_is_gone_does_not_panic() {
    let (tx, rx) = tokio::sync::mpsc::unbounded_channel::<UsageUpdate>();
    drop(rx);
    notify(Some(&tx), "Neige", UsageUpdateKind::Token);
}
