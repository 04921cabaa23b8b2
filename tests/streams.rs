use futures::buffer_unordered;
use futures::buffered;
use futures::catching::{self, settle, Fault};
use futures::channel::{channel, SendError};
use futures::collect;
use futures::for_each;
use futures::fold;
use futures::fuse;
use futures::future::{delayed, ready, Delayed, Future};
use futures::iter::{iter, IterStream};
use futures::merge::{self, MergedItem};
use futures::poll::Async;
use futures::stream::Stream;
use futures::zip;
use futures::empty::empty;
use futures::stream_future;
use futures::{and_then, filter, filter_map, flatten, map_err, or_else, peek, skip, skip_while, take};
use std::cell::Cell;

fn item<T, E>(r: Result<Async<Option<T>>, E>) -> Option<T> {
    match r {
        Ok(Async::Ready(Some(x))) => Some(x),
        _ => None,
    }
}

fn is_end<T, E>(r: &Result<Async<Option<T>>, E>) -> bool {
    matches!(r, Ok(Async::Ready(None)))
}

fn is_waiting<T, E>(r: &Result<Async<Option<T>>, E>) -> bool {
    matches!(r, Ok(Async::NotReady))
}

#[test]
fn iter_yields_results_in_order_then_ends() {
    let mut s = iter::<i32, u32>(vec![Ok(1), Err(9), Ok(2)]);
    assert_eq!(s.len(), 3);
    assert_eq!(item(s.poll()), Some(1));
    assert!(matches!(s.poll(), Err(9)));
    assert_eq!(item(s.poll()), Some(2));
    assert!(is_end(&s.poll()));
    assert_eq!(s.len(), 0);
}

#[test]
fn fuse_reports_end_after_error_without_advancing_inner() {
    let mut f = fuse::new(iter::<i32, u32>(vec![Ok(1), Err(7), Ok(2)]));
    assert_eq!(item(f.poll()), Some(1));
    assert!(!f.is_terminated());
    assert!(matches!(f.poll(), Err(7)));
    assert!(f.is_terminated());
    // The inner stream still holds Ok(2); the fuse never asks for it.
    assert!(is_end(&f.poll()));
    assert!(is_end(&f.poll()));
    assert!(is_end(&f.poll()));
}

#[test]
fn fuse_reports_end_forever_after_end() {
    let mut f = fuse::new(iter::<i32, u32>(vec![Ok(5)]));
    assert_eq!(item(f.poll()), Some(5));
    assert!(is_end(&f.poll()));
    for _ in 0..4 {
        assert!(is_end(&f.poll()));
    }
}

#[test]
fn zip_yields_min_length_pairs_then_ends() {
    let a = iter::<i32, u32>(vec![Ok(1), Ok(2), Ok(3)]);
    let b = iter::<char, u32>(vec![Ok('a'), Ok('b'), Ok('c'), Ok('d'), Ok('e')]);
    let mut z = zip::new(a, b);
    assert_eq!(item(z.poll()), Some((1, 'a')));
    assert_eq!(item(z.poll()), Some((2, 'b')));
    assert_eq!(item(z.poll()), Some((3, 'c')));
    assert!(is_end(&z.poll()));
    assert!(is_end(&z.poll()));
}

#[test]
fn zip_ends_when_second_is_shorter() {
    let a = iter::<i32, u32>(vec![Ok(1), Ok(2), Ok(3)]);
    let b = iter::<i32, u32>(vec![Ok(10)]);
    let mut z = zip::new(a, b);
    assert_eq!(item(z.poll()), Some((1, 10)));
    assert!(is_end(&z.poll()));
}

#[test]
fn zip_propagates_error_and_ends() {
    let a = iter::<i32, u32>(vec![Ok(1), Ok(2)]);
    let b = iter::<i32, u32>(vec![Err(4), Ok(20)]);
    let mut z = zip::new(a, b);
    assert!(matches!(z.poll(), Err(4)));
    assert!(is_end(&z.poll()));
}

#[test]
fn merge_prefers_first_when_both_ready() {
    let a = iter::<i32, u32>(vec![Ok(1), Ok(2), Ok(3)]);
    let b = iter::<i32, u32>(vec![Ok(10), Ok(20)]);
    let mut m = merge::new(a, b);
    let mut out = Vec::new();
    loop {
        let r = m.poll();
        if is_end(&r) {
            break;
        }
        out.push(item(r).unwrap());
    }
    assert_eq!(out.len(), 5);
    assert!(matches!(out[0], MergedItem::First(1)));
    assert!(matches!(out[1], MergedItem::First(2)));
    assert!(matches!(out[2], MergedItem::First(3)));
    assert!(matches!(out[3], MergedItem::Second(10)));
    assert!(matches!(out[4], MergedItem::Second(20)));
}

#[test]
fn merge_propagates_error() {
    let a = iter::<i32, u32>(vec![Err(3)]);
    let b = iter::<i32, u32>(vec![Ok(10)]);
    let mut m = merge::new(a, b);
    assert!(matches!(m.poll(), Err(3)));
}

#[test]
fn merge_waits_while_a_side_waits() {
    let ch = channel::<i32, u32>();
    let b = iter::<i32, u32>(vec![]);
    let mut m = merge::new(ch, b);
    assert!(is_waiting(&m.poll()));
}

fn reverse_delays(k: u64) -> Vec<Result<Delayed<u64, u32>, u32>> {
    let mut v = Vec::new();
    for i in 0..k {
        v.push(Ok(delayed(k - 1 - i, Ok(i))));
    }
    v
}

#[test]
fn buffered_keeps_input_order_when_futures_finish_in_reverse() {
    let k = 5;
    let mut b = buffered::new(iter(reverse_delays(k)), k as usize);
    let mut out = Vec::new();
    let mut waits = 0;
    loop {
        let r = b.poll();
        if is_end(&r) {
            break;
        }
        if is_waiting(&r) {
            waits += 1;
            assert!(waits < 100);
            continue;
        }
        out.push(item(r).unwrap());
    }
    assert_eq!(out, vec![0, 1, 2, 3, 4]);
}

#[test]
fn buffered_with_limit_one_runs_in_sequence() {
    let mut b = buffered::new(iter(reverse_delays(3)), 1);
    let mut out = Vec::new();
    for _ in 0..20 {
        let r = b.poll();
        if is_end(&r) {
            break;
        }
        if let Some(v) = item(r) {
            out.push(v);
        }
    }
    assert_eq!(out, vec![0, 1, 2]);
}

#[test]
fn buffered_passes_future_error() {
    let src = iter::<Delayed<u64, u32>, u32>(vec![Ok(ready(Ok(1))), Ok(ready(Err(8)))]);
    let mut b = buffered::new(src, 2);
    assert_eq!(item(b.poll()), Some(1));
    assert!(matches!(b.poll(), Err(8)));
    assert!(is_end(&b.poll()));
}

#[test]
fn buffer_unordered_yields_each_once_in_completion_order() {
    let k = 5;
    let mut b = buffer_unordered::new(iter(reverse_delays(k)), k as usize);
    let mut out = Vec::new();
    let mut waits = 0;
    loop {
        let r = b.poll();
        if is_end(&r) {
            break;
        }
        if is_waiting(&r) {
            waits += 1;
            assert!(waits < 100);
            continue;
        }
        out.push(item(r).unwrap());
    }
    assert_eq!(out, vec![4, 3, 2, 1, 0]);
}

#[test]
fn buffer_unordered_prefers_oldest_ready() {
    let src = iter::<Delayed<u64, u32>, u32>(vec![Ok(ready(Ok(1))), Ok(ready(Ok(2)))]);
    let mut b = buffer_unordered::new(src, 2);
    assert_eq!(item(b.poll()), Some(1));
    assert_eq!(item(b.poll()), Some(2));
    assert!(is_end(&b.poll()));
}

#[test]
fn settle_turns_abort_into_item_once() {
    let first = settle::<i32, u32>(Ok(Ok(Async::Ready(Some(10)))));
    assert!(matches!(first, Ok(Async::Ready(Some(Ok(10))))));
    let second = settle::<i32, u32>(Err(Fault { message: "boom".to_string() }));
    match second {
        Ok(Async::Ready(Some(Err(f)))) => assert_eq!(f.message, "boom"),
        _ => panic!("expected an intercepted fault"),
    }
    let third = settle::<i32, u32>(Ok(Ok(Async::Ready(None))));
    assert!(matches!(third, Ok(Async::Ready(None))));
}

#[test]
fn settle_passes_errors_and_waits() {
    assert!(matches!(settle::<i32, u32>(Ok(Err(5))), Err(5)));
    assert!(matches!(settle::<i32, u32>(Ok(Ok(Async::NotReady))), Ok(Async::NotReady)));
}

#[test]
fn catching_stream_wraps_items_in_ok() {
    let mut c = catching::new(iter::<i32, u32>(vec![Ok(10), Err(2)]));
    assert!(matches!(c.poll(), Ok(Async::Ready(Some(Ok(10))))));
    assert!(matches!(c.poll(), Err(2)));
    assert!(matches!(c.poll(), Ok(Async::Ready(None))));
}

#[test]
fn channel_hands_off_one_item_at_a_time() {
    let mut ch = channel::<i32, u32>();
    assert!(is_waiting(&ch.poll()));
    assert!(ch.start_send(Ok(1)).is_ok());
    assert!(ch.take_receiver_wake());
    assert!(!ch.take_receiver_wake());
    assert!(matches!(ch.start_send(Ok(2)), Err(SendError::Full(Ok(2)))));
    assert!(matches!(ch.poll_send(), Ok(Async::NotReady)));
    assert_eq!(item(ch.poll()), Some(1));
    assert!(ch.take_sender_wake());
    assert!(matches!(ch.poll_send(), Ok(Async::Ready(()))));
    assert!(is_waiting(&ch.poll()));
    ch.drop_sender();
    assert!(ch.take_receiver_wake());
    assert!(is_end(&ch.poll()));
}

#[test]
fn channel_send_fails_after_receiver_released() {
    let mut ch = channel::<i32, u32>();
    assert!(ch.start_send(Ok(3)).is_ok());
    assert!(matches!(ch.poll_send(), Ok(Async::NotReady)));
    ch.drop_receiver();
    assert!(ch.take_sender_wake());
    assert!(matches!(ch.poll_send(), Err(SendError::Disconnected(Ok(3)))));
    assert!(matches!(ch.start_send(Ok(4)), Err(SendError::Disconnected(Ok(4)))));
}

#[test]
fn channel_carries_errors() {
    let mut ch = channel::<i32, u32>();
    assert!(ch.start_send(Err(6)).is_ok());
    assert!(matches!(ch.poll(), Err(6)));
}

#[test]
fn fold_sums_to_fifteen() {
    let s = iter::<i64, u32>(vec![Ok(1), Ok(2), Ok(3), Ok(4), Ok(5)]);
    let mut fo = fold::new(s, |acc: i64, x: i64| ready(Ok::<i64, u32>(acc + x)), 0);
    assert!(matches!(fo.poll(), Ok(Async::Ready(15))));
}

#[test]
fn fold_stops_at_error_from_accumulator() {
    let seen = Cell::new(0);
    let s = iter::<i64, u32>(vec![Ok(1), Ok(2), Ok(3), Ok(4), Ok(5)]);
    let f = |acc: i64, x: i64| {
        seen.set(seen.get() + 1);
        if x == 3 { ready(Err(33)) } else { ready(Ok(acc + x)) }
    };
    let mut fo = fold::new(s, f, 0);
    assert!(matches!(fo.poll(), Err(33)));
    assert_eq!(seen.get(), 3);
    assert!(matches!(fo.poll(), Ok(Async::NotReady)));
    assert_eq!(seen.get(), 3);
}

#[test]
fn fold_waits_on_a_slow_step() {
    let s = iter::<i64, u32>(vec![Ok(4), Ok(6)]);
    let mut fo = fold::new(s, |acc: i64, x: i64| delayed(1, Ok::<i64, u32>(acc * 10 + x)), 0);
    assert!(matches!(fo.poll(), Ok(Async::NotReady)));
    assert!(matches!(fo.poll(), Ok(Async::NotReady)));
    assert!(matches!(fo.poll(), Ok(Async::Ready(46))));
}

#[test]
fn fold_passes_stream_error() {
    let s = iter::<i64, u32>(vec![Ok(1), Err(2), Ok(3)]);
    let mut fo = fold::new(s, |acc: i64, x: i64| ready(Ok::<i64, u32>(acc + x)), 0);
    assert!(matches!(fo.poll(), Err(2)));
}

#[test]
fn delayed_waits_then_resolves_once() {
    let mut d = delayed::<i32, u32>(2, Ok(7));
    assert!(matches!(d.poll(), Ok(Async::NotReady)));
    assert!(matches!(d.poll(), Ok(Async::NotReady)));
    assert!(matches!(d.poll(), Ok(Async::Ready(7))));
    assert!(matches!(d.poll(), Ok(Async::NotReady)));
}

#[test]
fn collect_gathers_all_items_in_order() {
    let mut c = collect::new(iter::<i32, u32>(vec![Ok(5), Ok(4), Ok(3), Ok(2), Ok(1)]));
    match c.poll() {
        Ok(Async::Ready(v)) => assert_eq!(v, vec![5, 4, 3, 2, 1]),
        _ => panic!("expected the collected items"),
    }
}

#[test]
fn collect_of_empty_stream_is_empty() {
    let mut c = collect::new(iter::<i32, u32>(vec![]));
    match c.poll() {
        Ok(Async::Ready(v)) => assert!(v.is_empty()),
        _ => panic!("expected an empty vector"),
    }
}

#[test]
fn collect_reports_error() {
    let mut c = collect::new(iter::<i32, u32>(vec![Ok(1), Err(4), Ok(2)]));
    assert!(matches!(c.poll(), Err(4)));
    assert!(matches!(c.poll(), Ok(Async::NotReady)));
}

#[test]
fn collect_waits_on_channel_then_resolves() {
    let mut c = collect::new(channel::<i32, u32>());
    assert!(matches!(c.poll(), Ok(Async::NotReady)));
}

#[test]
fn for_each_visits_every_item() {
    let total = Cell::new(0);
    let mut fe = for_each::new(iter::<i32, u32>(vec![Ok(1), Ok(2), Ok(3)]), |x: i32| {
        total.set(total.get() + x);
        Ok(())
    });
    assert!(matches!(fe.poll(), Ok(Async::Ready(()))));
    assert_eq!(total.get(), 6);
}

#[test]
fn for_each_stops_at_first_error() {
    let seen = Cell::new(0);
    let mut fe = for_each::new(iter::<i32, u32>(vec![Ok(1), Ok(2), Ok(3), Ok(4)]), |x: i32| {
        seen.set(seen.get() + 1);
        if x == 2 { Err(20) } else { Ok(()) }
    });
    assert!(matches!(fe.poll(), Err(20)));
    assert_eq!(seen.get(), 2);
    assert!(matches!(fe.poll(), Ok(Async::NotReady)));
    assert_eq!(seen.get(), 2);
}

#[test]
fn take_stops_after_limit_without_advancing() {
    let mut t = take::new(iter::<i32, u32>(vec![Ok(1), Ok(2), Ok(3)]), 2);
    assert_eq!(item(t.poll()), Some(1));
    assert_eq!(item(t.poll()), Some(2));
    assert!(is_end(&t.poll()));
    assert!(is_end(&t.poll()));
}

#[test]
fn take_passes_error_without_counting_it() {
    let mut t = take::new(iter::<i32, u32>(vec![Err(5), Ok(1), Ok(2)]), 1);
    assert!(matches!(t.poll(), Err(5)));
    assert_eq!(item(t.poll()), Some(1));
    assert!(is_end(&t.poll()));
}

#[test]
fn skip_drops_leading_items() {
    let mut s = skip::new(iter::<i32, u32>(vec![Ok(1), Ok(2), Ok(3), Ok(4)]), 2);
    assert_eq!(item(s.poll()), Some(3));
    assert_eq!(item(s.poll()), Some(4));
    assert!(is_end(&s.poll()));
}

#[test]
fn skip_passes_error_while_skipping() {
    let mut s = skip::new(iter::<i32, u32>(vec![Ok(1), Err(7), Ok(2), Ok(3)]), 2);
    assert!(matches!(s.poll(), Err(7)));
    assert_eq!(item(s.poll()), Some(3));
}

#[test]
fn skip_more_than_available_ends() {
    let mut s = skip::new(iter::<i32, u32>(vec![Ok(1)]), 5);
    assert!(is_end(&s.poll()));
}

#[test]
fn map_applies_function_to_items() {
    let mut m = futures::map::new(iter::<i32, u32>(vec![Ok(1), Err(2), Ok(3)]), |x: i32| x * 10 + 1);
    assert_eq!(item(m.poll()), Some(11));
    assert!(matches!(m.poll(), Err(2)));
    assert_eq!(item(m.poll()), Some(31));
    assert!(is_end(&m.poll()));
}

#[test]
fn map_err_rewrites_errors_only() {
    let mut m = map_err::new(iter::<i32, u32>(vec![Ok(1), Err(2), Ok(3)]), |e: u32| (e as i64) - 100);
    assert_eq!(item(m.poll()), Some(1));
    assert!(matches!(m.poll(), Err(-98)));
    assert_eq!(item(m.poll()), Some(3));
    assert!(is_end(&m.poll()));
}

#[test]
fn filter_keeps_matching_items() {
    let mut f = filter::new(iter::<i32, u32>(vec![Ok(1), Ok(2), Ok(3), Ok(4), Err(9), Ok(6)]), |x: &i32| *x % 2 == 0);
    assert_eq!(item(f.poll()), Some(2));
    assert_eq!(item(f.poll()), Some(4));
    assert!(matches!(f.poll(), Err(9)));
    assert_eq!(item(f.poll()), Some(6));
    assert!(is_end(&f.poll()));
}

#[test]
fn filter_rejecting_everything_ends() {
    let mut f = filter::new(iter::<i32, u32>(vec![Ok(1), Ok(3)]), |x: &i32| *x > 10);
    assert!(is_end(&f.poll()));
}

#[test]
fn and_then_runs_a_future_per_item() {
    let src = iter::<i64, u32>(vec![Ok(1), Ok(2), Err(5), Ok(4)]);
    let mut a = and_then::new(src, |x: i64| if x == 4 { ready(Err(40)) } else { delayed(1, Ok(x * 100)) });
    assert!(is_waiting(&a.poll()));
    assert_eq!(item(a.poll()), Some(100));
    assert!(is_waiting(&a.poll()));
    assert_eq!(item(a.poll()), Some(200));
    assert!(matches!(a.poll(), Err(5)));
    assert!(matches!(a.poll(), Err(40)));
    assert!(is_end(&a.poll()));
}

#[test]
fn empty_stream_ends_at_once() {
    let mut e = empty::<i32, u32>();
    assert!(is_end(&e.poll()));
    assert!(is_end(&e.poll()));
}

#[test]
fn stream_future_yields_next_item_and_rest() {
    let mut f = stream_future::new(iter::<i32, u32>(vec![Ok(1), Ok(2)]));
    match f.poll() {
        Ok(Async::Ready((Some(1), mut rest))) => {
            assert_eq!(item(rest.poll()), Some(2));
            assert!(is_end(&rest.poll()));
        },
        _ => panic!("expected the first item and the rest"),
    }
    assert!(matches!(f.poll(), Ok(Async::NotReady)));
}

#[test]
fn stream_future_reports_error_with_rest() {
    let mut f = stream_future::new(iter::<i32, u32>(vec![Err(3), Ok(4)]));
    match f.poll() {
        Err((3, mut rest)) => assert_eq!(item(rest.poll()), Some(4)),
        _ => panic!("expected the error and the rest"),
    }
}

#[test]
fn stream_future_waits_on_empty_channel() {
    let mut f = stream_future::new(channel::<i32, u32>());
    assert!(matches!(f.poll(), Ok(Async::NotReady)));
}

#[test]
fn then_runs_a_future_per_result() {
    let src = iter::<i64, u32>(vec![Ok(1), Err(2)]);
    let mut t = futures::then::new(src, |res: Result<i64, u32>| match res {
        Ok(x) => ready(Ok::<i64, bool>(x + 10)),
        Err(e) => ready(Ok::<i64, bool>(-(e as i64))),
    });
    assert_eq!(item(t.poll()), Some(11));
    assert_eq!(item(t.poll()), Some(-2));
    assert!(is_end(&t.poll()));
}

#[test]
fn or_else_recovers_from_errors() {
    let src = iter::<i64, u32>(vec![Ok(1), Err(2), Err(3)]);
    let mut o = or_else::new(src, |e: u32| if e == 2 { ready(Ok(20)) } else { ready(Err(e as u64 * 100)) });
    assert_eq!(item(o.poll()), Some(1));
    assert_eq!(item(o.poll()), Some(20));
    assert!(matches!(o.poll(), Err(300)));
    assert!(is_end(&o.poll()));
}

#[test]
fn filter_map_keeps_some_results() {
    let src = iter::<i32, u32>(vec![Ok(1), Ok(2), Ok(3), Ok(4)]);
    let mut f = filter_map::new(src, |x: i32| if x % 2 == 1 { Some(x * 3) } else { None });
    assert_eq!(item(f.poll()), Some(3));
    assert_eq!(item(f.poll()), Some(9));
    assert!(is_end(&f.poll()));
}

#[test]
fn peek_shows_next_item_without_taking_it() {
    let mut p = peek::new(iter::<i32, u32>(vec![Ok(1), Ok(2)]));
    assert!(matches!(p.peek(), Ok(Async::Ready(Some(&1)))));
    assert!(matches!(p.peek(), Ok(Async::Ready(Some(&1)))));
    assert_eq!(item(p.poll()), Some(1));
    assert_eq!(item(p.poll()), Some(2));
    assert!(matches!(p.peek(), Ok(Async::Ready(None))));
}

#[test]
fn flatten_runs_each_inner_stream_to_its_end() {
    let inner1 = iter::<i32, u32>(vec![Ok(1), Ok(2)]);
    let inner2 = iter::<i32, u32>(vec![]);
    let inner3 = iter::<i32, u32>(vec![Ok(3), Err(8)]);
    let outer = iter::<IterStream<i32, u32>, u32>(vec![Ok(inner1), Ok(inner2), Ok(inner3)]);
    let mut f = flatten::new(outer);
    assert_eq!(item(f.poll()), Some(1));
    assert_eq!(item(f.poll()), Some(2));
    assert_eq!(item(f.poll()), Some(3));
    assert!(matches!(f.poll(), Err(8)));
    assert!(is_end(&f.poll()));
}

#[test]
fn skip_while_drops_leading_items_then_keeps_all() {
    let src = iter::<i32, u32>(vec![Ok(1), Ok(2), Ok(5), Ok(1), Ok(7)]);
    let mut s = skip_while::new(src, |x: &i32| delayed(1, Ok::<bool, u32>(*x < 3)));
    let mut out = Vec::new();
    for _ in 0..20 {
        let r = s.poll();
        if is_end(&r) {
            break;
        }
        if let Some(v) = item(r) {
            out.push(v);
        }
    }
    assert_eq!(out, vec![5, 1, 7]);
}

#[test]
fn skip_while_passes_predicate_error() {
    let src = iter::<i32, u32>(vec![Ok(1), Ok(2)]);
    let mut s = skip_while::new(src, |x: &i32| if *x == 1 { ready(Err(11)) } else { ready(Ok(false)) });
    assert!(matches!(s.poll(), Err(11)));
    assert_eq!(item(s.poll()), Some(2));
}

#[test]
fn buffer_unordered_keeps_later_outcomes_for_later_advances() {
    let src = iter::<Delayed<u64, u32>, u32>(vec![Ok(delayed(1, Ok(1))), Ok(ready(Ok(2))), Ok(ready(Ok(3)))]);
    let mut b = buffer_unordered::new(src, 3);
    assert_eq!(item(b.poll()), Some(2));
    assert_eq!(item(b.poll()), Some(1));
    assert_eq!(item(b.poll()), Some(3));
    assert!(is_end(&b.poll()));
}

#[test]
fn buffered_runs_collect_futures() {
    let c1 = collect::new(iter::<i32, u32>(vec![Ok(1), Ok(2)]));
    let c2 = collect::new(iter::<i32, u32>(vec![Ok(3)]));
    let src = iter::<collect::Collect<IterStream<i32, u32>>, u32>(vec![Ok(c1), Ok(c2)]);
    let mut b = buffered::new(src, 2);
    assert_eq!(item(b.poll()), Some(vec![1, 2]));
    assert_eq!(item(b.poll()), Some(vec![3]));
    assert!(is_end(&b.poll()));
}

#[test]
fn boxed_stream_advances_as_inner() {
    let mut s: Box<futures::iter::IterStream<i32, u32>> = Box::new(iter(vec![Ok(4)]));
    assert_eq!(item(s.poll()), Some(4));
    assert!(is_end(&s.poll()));
}
