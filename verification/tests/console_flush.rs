use kitlogger::console::flush::{BatchFlush, FlushStrategy, ImmediateFlush, OnShutdownFlush};

#[test]
fn immediate_should_flush_every_write() {
    let strategy = ImmediateFlush;
    assert!(strategy.should_flush(0), "Immediate: should flush on first write");
    assert!(strategy.should_flush(1), "Immediate: should flush on every write");
    assert!(strategy.should_flush(100), "Immediate: should flush on 100th write");
}

#[test]
fn immediate_on_shutdown_returns_false() {
    let strategy = ImmediateFlush;
    assert!(!strategy.on_shutdown(), "Immediate does not flush on shutdown");
}

#[test]
fn on_shutdown_should_not_flush_during_writes() {
    let strategy = OnShutdownFlush;
    assert!(!strategy.should_flush(0), "OnShutdown: no flush on write");
    assert!(!strategy.should_flush(1), "OnShutdown: no flush on write");
    assert!(!strategy.should_flush(5000), "OnShutdown: no flush even after many writes");
}

#[test]
fn on_shutdown_flushes_on_shutdown() {
    let strategy = OnShutdownFlush;
    assert!(strategy.on_shutdown(), "OnShutdown flushes on shutdown");
}

#[test]
fn batch_flushes_at_threshold() {
    let strategy = BatchFlush::new(5);
    assert!(strategy.should_flush(0), "write 0: 0 is multiple of 5, flushes");
    assert!(!strategy.should_flush(1), "write 1: should not flush");
    assert!(!strategy.should_flush(4), "write 4: should not flush");
    assert!(strategy.should_flush(5), "write 5: should flush (multiple of 5)");
    assert!(!strategy.should_flush(6), "write 6: should not flush");
    assert!(strategy.should_flush(10), "write 10: should flush (multiple of 5)");
    assert!(!strategy.should_flush(11), "write 11: should not flush");
}

#[test]
fn batch_threshold_of_one_flushes_every_write() {
    let strategy = BatchFlush::new(1);
    assert!(strategy.should_flush(0), "threshold 1: every write flushes, including 0");
    assert!(strategy.should_flush(1), "threshold 1: flush at write 1");
    assert!(strategy.should_flush(42), "threshold 1: flush at write 42");
}

#[test]
fn batch_flushes_on_shutdown() {
    let strategy = BatchFlush::new(10);
    assert!(strategy.on_shutdown(), "Batch flushes on shutdown");
}

#[test]
fn batch_threshold_of_zero_flushes_only_first_write() {
    let strategy = BatchFlush::new(0);
    assert!(strategy.should_flush(0));
    assert!(!strategy.should_flush(1));
    assert!(!strategy.should_flush(7));
}

#[test]
fn batch_flush_is_send_and_sync() {
    fn assert_send_sync<T: Send + Sync>() {}
    assert_send_sync::<kitlogger::console::flush::ImmediateFlush>();
    assert_send_sync::<kitlogger::console::flush::OnShutdownFlush>();
    assert_send_sync::<kitlogger::console::flush::BatchFlush>();
}
