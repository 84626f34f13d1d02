use aquic::backend::util::{ActiveQueue, BipBuffer, BipSlice, Deadlines, Time, TimerWheel};
use aquic::time::{Duration, Instant};

fn at(nanos: u128) -> Instant {
    Instant { nanos }
}

/// Reserves and commits `data`.
fn commit(buffer: &mut BipBuffer, data: &[u8]) -> BipSlice {
    let area = buffer.reserve(data.len(), true).unwrap();
    buffer.write(&area, 0, data);
    area.commit(buffer, data.len()).unwrap()
}

#[test]
fn committed_bytes_are_what_was_written() {
    let mut buffer = BipBuffer::new(8);
    assert_eq!((buffer.len(), buffer.available()), (8, 8));
    let a = commit(&mut buffer, b"abc");
    let b = commit(&mut buffer, b"de");
    assert_eq!(a.as_read_slice(&buffer), b"abc");
    assert_eq!(b.as_read_slice(&buffer), b"de");
    assert_eq!((a.len(), b.len()), (3, 2));
    assert_eq!(buffer.available(), 3);
}

#[test]
fn reservation_may_be_shorter_than_requested() {
    let mut buffer = BipBuffer::new(8);
    let a = commit(&mut buffer, b"abcdef");
    assert!(buffer.reserve(3, true).is_none());
    let area = buffer.reserve(3, false).unwrap();
    assert_eq!(area.capacity(), 2);
    area.cancel(&mut buffer);
    assert_eq!(buffer.available(), 2);
    let b = commit(&mut buffer, b"gh");
    assert_eq!(buffer.available(), 0);
    assert!(buffer.reserve(1, false).is_none());
    a.decommit(&mut buffer);
    b.decommit(&mut buffer);
    assert_eq!(buffer.available(), 8);
}

#[test]
fn commit_of_nothing_gives_up_the_reservation() {
    let mut buffer = BipBuffer::new(4);
    let area = buffer.reserve(4, true).unwrap();
    assert!(area.commit(&mut buffer, 0).is_none());
    assert_eq!(buffer.available(), 4);
    assert!(buffer.reserve(4, true).is_some());
}

#[test]
fn memory_wraps_around_only_if_it_has_to() {
    let mut buffer = BipBuffer::new(10);
    let a = commit(&mut buffer, b"aaaaa");
    let b = commit(&mut buffer, b"bbb");
    a.decommit(&mut buffer);
    assert_eq!(buffer.available(), 5);
    // Two bytes still fit behind the newest chunk.
    let c = commit(&mut buffer, b"cc");
    assert_eq!(buffer.available(), 5);
    let d = commit(&mut buffer, b"ddd");
    assert_eq!(buffer.available(), 2);
    assert_eq!(b.as_read_slice(&buffer), b"bbb");
    assert_eq!(c.as_read_slice(&buffer), b"cc");
    assert_eq!(d.as_read_slice(&buffer), b"ddd");
    b.decommit(&mut buffer);
    assert_eq!(buffer.available(), 5);
    c.decommit(&mut buffer);
    // Region B has become region A.
    assert_eq!(buffer.available(), 7);
    assert_eq!(d.as_read_slice(&buffer), b"ddd");
}

#[test]
fn chunks_are_released_in_any_order() {
    let mut buffer = BipBuffer::new(9);
    let a = commit(&mut buffer, b"aaa");
    let b = commit(&mut buffer, b"bbb");
    let c = commit(&mut buffer, b"ccc");
    b.decommit(&mut buffer);
    assert_eq!(buffer.available(), 0);
    assert_eq!(a.as_read_slice(&buffer), b"aaa");
    assert_eq!(c.as_read_slice(&buffer), b"ccc");
    a.decommit(&mut buffer);
    assert_eq!(buffer.available(), 6);
    c.decommit(&mut buffer);
    assert_eq!(buffer.available(), 9);
}

#[test]
fn front_of_a_reservation_is_committed() {
    let mut buffer = BipBuffer::new(6);
    let mut area = buffer.reserve(6, true).unwrap();
    buffer.write(&area, 0, b"abcdef");
    let front = area.commit_front(&mut buffer, 2);
    assert_eq!(area.capacity(), 4);
    buffer.write(&area, 1, b"X");
    let rest = area.commit(&mut buffer, 3).unwrap();
    assert_eq!(front.as_read_slice(&buffer), b"ab");
    assert_eq!(rest.as_read_slice(&buffer), b"cXe");
    assert_eq!(buffer.available(), 1);
}

#[test]
fn reservation_outlives_released_chunks() {
    let mut buffer = BipBuffer::new(10);
    let a = commit(&mut buffer, b"aaaa");
    let area = buffer.reserve(3, true).unwrap();
    buffer.write(&area, 0, b"bbb");
    a.decommit(&mut buffer);
    // There is no chunk left, and the area still lies where it was.
    let b = area.commit(&mut buffer, 3).unwrap();
    assert_eq!(b.as_read_slice(&buffer), b"bbb");
    assert_eq!(buffer.available(), 4);
    b.decommit(&mut buffer);
    assert_eq!(buffer.available(), 10);

    // An area in front of the oldest chunk.
    let a = commit(&mut buffer, b"aaaaaa");
    let b = commit(&mut buffer, b"bb");
    a.decommit(&mut buffer);
    let area = buffer.reserve(5, true).unwrap();
    buffer.write(&area, 0, b"ccccc");
    b.decommit(&mut buffer);
    let c = area.commit(&mut buffer, 4).unwrap();
    assert_eq!(c.as_read_slice(&buffer), b"cccc");
    assert_eq!(buffer.available(), 6);
    c.decommit(&mut buffer);
    assert_eq!(buffer.available(), 10);
}

fn wheel() -> TimerWheel<&'static str> {
    TimerWheel::new(Duration::from_millis(10), Duration::from_millis(70))
}

#[test]
fn event_fires_on_its_tick() {
    let mut wheel = wheel();
    let mut out = Vec::new();
    wheel.schedule("now", 0);
    wheel.schedule("later", 2);
    wheel.schedule("last", 7);
    assert_eq!(wheel.tick(&mut out), 1);
    assert_eq!(wheel.tick(&mut out), 0);
    assert_eq!(wheel.tick(&mut out), 1);
    assert_eq!(out, ["now", "later"]);
    for _ in 0..5 {
        wheel.tick(&mut out);
    }
    assert_eq!(out, ["now", "later", "last"]);
    for _ in 0..20 {
        assert_eq!(wheel.tick(&mut out), 0);
    }
}

#[test]
fn cancelled_event_does_not_fire() {
    let mut wheel = wheel();
    let mut out = Vec::new();
    let a = wheel.schedule("a", 1);
    let b = wheel.schedule("b", 1);
    let c = wheel.schedule("c", 1);
    assert!(a != b && b != c);
    wheel.cancel(a);
    wheel.cancel(a);
    wheel.tick(&mut out);
    wheel.tick(&mut out);
    assert_eq!(out, ["c", "b"]);
    wheel.cancel(b);
    assert_eq!(wheel.tick(&mut out), 0);
}

#[test]
fn time_is_rounded_up_to_ticks() {
    let mut wheel = wheel();
    let mut out = Vec::new();
    wheel.schedule_at("exact", at(0), at(20_000_000));
    wheel.schedule_at("rounded", at(0), at(20_000_001));
    wheel.schedule_instant_ceil("past", at(5), at(1));
    wheel.tick(&mut out);
    assert_eq!(out, ["past"]);
    wheel.tick(&mut out);
    wheel.tick(&mut out);
    assert_eq!(out, ["past", "exact"]);
    wheel.tick(&mut out);
    assert_eq!(out, ["past", "exact", "rounded"]);
}

#[test]
fn missed_ticks_are_caught_up_with() {
    let mut wheel = TimerWheel::with_capacity(
        Duration::from_nanos(10),
        Duration::from_nanos(100),
        1,
        1,
    );
    let mut out = Vec::new();
    wheel.schedule("a", 0);
    wheel.schedule("b", 3);
    wheel.schedule("c", 4);
    let mut next_tick_at = at(100);
    assert_eq!(wheel.catch_up(&mut out, at(145), &mut next_tick_at), 2);
    assert_eq!(out, ["a", "b"]);
    assert_eq!(next_tick_at, at(140));
    assert_eq!(wheel.catch_up(&mut out, at(145), &mut next_tick_at), 0);
    assert_eq!(wheel.tick_on_time(&mut out, &mut next_tick_at), 1);
    assert_eq!(next_tick_at, at(150));
    assert_eq!(out, ["a", "b", "c"]);
}

#[test]
fn longest_schedule_fits_into_the_wheel() {
    let mut wheel = TimerWheel::new(Duration::from_nanos(1), Duration::from_nanos(8));
    let mut out = Vec::new();
    wheel.schedule_at("max", at(0), at(8));
    for _ in 0..8 {
        assert_eq!(wheel.tick(&mut out), 0);
    }
    assert_eq!(wheel.tick(&mut out), 1);
}

#[test]
fn active_queue_is_fair() {
    let mut queue = ActiveQueue::new();
    assert_eq!(queue.front(), None);
    queue.next();
    queue.mark(5);
    queue.mark(6);
    queue.mark(5);
    queue.mark(7);
    assert_eq!((queue.front(), queue.len()), (Some(5), 3));
    queue.remove(6);
    queue.next();
    assert_eq!((queue.front(), queue.len()), (Some(7), 1));
    queue.mark(5);
    queue.next();
    assert_eq!(queue.front(), Some(5));
    queue.remove(9);
    queue.next();
    assert_eq!(queue.len(), 0);
}

#[test]
fn deadlines_fire_when_their_time_has_come() {
    let mut deadlines = Deadlines::new();
    let mut out = Vec::new();
    deadlines.schedule("b", at(20));
    deadlines.schedule("a", at(10));
    let c = deadlines.schedule("c", at(30));
    assert_eq!(deadlines.progress(at(9), &mut out), Some(at(10)));
    assert!(out.is_empty());
    assert_eq!(deadlines.progress(at(20), &mut out), Some(at(30)));
    assert_eq!(out, ["b", "a"]);
    deadlines.cancel(c);
    deadlines.cancel(c);
    assert_eq!(deadlines.progress(at(99), &mut out), None);
    assert_eq!(out.len(), 2);
}

#[test]
fn clock_fires_events() {
    let mut time = Time::new(at(0));
    let key = time.schedule("late", at(50));
    time.reschedule("early", at(5), Some(key));
    time.schedule("middle", at(7));
    let cancelled = time.schedule("never", at(6));
    time.cancel(Some(cancelled));
    time.cancel(None);
    assert_eq!(time.tick(), (Some(at(5)), false));
    time.update_clock(at(6));
    assert_eq!(time.now(), at(6));
    assert_eq!(time.tick(), (Some(at(7)), true));
    assert_eq!(time.fired_events(), ["early"]);
    time.update_clock(at(100));
    assert_eq!(time.tick(), (None, true));
    assert_eq!(time.tick(), (None, true));
    assert_eq!(time.fired_events(), ["middle"]);
    assert_eq!(time.tick(), (None, false));
}
