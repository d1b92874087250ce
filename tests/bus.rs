use std::sync::mpsc::{channel, Receiver, Sender};

use left_click_bot::messenger::{
    Mailbox, MailboxNumbers, Message, Package, Polled, PostOffice, Submission,
};

fn bus_with(n: usize) -> (PostOffice, Receiver<Submission>, Vec<Mailbox>) {
    let (bus_tx, bus_rx) = channel::<Submission>();
    let mut po = PostOffice::new();
    let mut boxes = Vec::new();
    for i in 0..n {
        let (tx, rx): (Sender<Package>, Receiver<Package>) = channel();
        po.subscribe(tx);
        boxes.push(Mailbox::new(i + 1, bus_tx.clone(), rx));
    }
    (po, bus_rx, boxes)
}

fn pump(po: &mut PostOffice, bus_rx: &Receiver<Submission>) {
    while let Ok(s) = bus_rx.try_recv() {
        po.handle(s);
    }
}

#[test]
fn no_self_echo() {
    let (mut po, bus_rx, mut boxes) = bus_with(2);
    boxes[0].broadcast(Message::Shutdown).unwrap();
    pump(&mut po, &bus_rx);
    assert_eq!(boxes[0].try_recv(), Ok(None));
    assert_eq!(boxes[1].try_recv(), Ok(Some(Message::Shutdown)));
    assert_eq!(boxes[1].try_recv(), Ok(None));
}

#[test]
fn own_packages_are_skipped_before_foreign_ones() {
    let (mut po, bus_rx, mut boxes) = bus_with(2);
    boxes[0].broadcast(Message::ToggleKeybind(true)).unwrap();
    boxes[1].broadcast(Message::ToggleClicker).unwrap();
    pump(&mut po, &bus_rx);
    assert_eq!(boxes[0].try_recv(), Ok(Some(Message::ToggleClicker)));
    assert_eq!(boxes[0].try_recv(), Ok(None));
}

#[test]
fn fan_out_keeps_order() {
    let (mut po, bus_rx, mut boxes) = bus_with(3);
    let first = Message::SetInterval { subinterval_millis: 250, subinterval_count: 12 };
    boxes[0].broadcast(first).unwrap();
    boxes[0].broadcast(Message::ToggleClicker).unwrap();
    pump(&mut po, &bus_rx);
    for mb in boxes.iter_mut().skip(1) {
        assert_eq!(mb.try_recv(), Ok(Some(first)));
        assert_eq!(mb.try_recv(), Ok(Some(Message::ToggleClicker)));
        assert_eq!(mb.try_recv(), Ok(None));
    }
}

#[test]
fn multicast_reaches_every_other_subscriber_once() {
    let (mut po, bus_rx, mut boxes) = bus_with(4);
    boxes[2].broadcast(Message::ToggleKeybind(false)).unwrap();
    pump(&mut po, &bus_rx);
    for (i, mb) in boxes.iter_mut().enumerate() {
        if i == 2 {
            assert_eq!(mb.try_recv(), Ok(None));
        } else {
            assert_eq!(mb.try_recv(), Ok(Some(Message::ToggleKeybind(false))));
            assert_eq!(mb.try_recv(), Ok(None));
        }
    }
}

#[test]
fn bus_without_subscribers_keeps_running() {
    let po = PostOffice::new();
    assert!(po.is_running());
    assert_eq!(po.listener_count(), 0);
}

#[test]
fn bus_stops_once_every_listener_is_gone() {
    let (mut po, _bus_rx, boxes) = bus_with(2);
    assert!(po.is_running());
    drop(boxes);
    po.handle_package(Message::Shutdown.package(0));
    assert_eq!(po.listener_count(), 0);
    assert!(!po.is_running());
}

#[test]
fn dropped_listener_is_removed_and_others_stay() {
    let (mut po, _bus_rx, mut boxes) = bus_with(3);
    let gone = boxes.remove(1);
    drop(gone);
    po.handle_package(Message::ToggleClicker.package(0));
    assert_eq!(po.listener_count(), 2);
    assert!(po.is_running());
    assert_eq!(boxes[0].try_recv(), Ok(Some(Message::ToggleClicker)));
    assert_eq!(boxes[1].try_recv(), Ok(Some(Message::ToggleClicker)));
}

#[test]
fn administrative_broadcast_reaches_everyone() {
    let (mut po, _bus_rx, mut boxes) = bus_with(2);
    po.handle_package(Message::Shutdown.package(0));
    assert_eq!(boxes[0].try_recv(), Ok(Some(Message::Shutdown)));
    assert_eq!(boxes[1].try_recv(), Ok(Some(Message::Shutdown)));
}

#[test]
fn try_recv_on_empty_queue_returns_none() {
    let (_po, _bus_rx, mut boxes) = bus_with(1);
    assert_eq!(boxes[0].try_recv(), Ok(None));
}

#[test]
fn try_recv_fails_once_bus_is_gone() {
    let (po, _bus_rx, mut boxes) = bus_with(1);
    drop(po);
    assert_eq!(boxes[0].try_recv(), Err(()));
}

#[test]
fn broadcast_fails_once_bus_is_gone() {
    let (_po, bus_rx, mut boxes) = bus_with(1);
    drop(bus_rx);
    assert_eq!(boxes[0].broadcast(Message::ToggleClicker), Err(()));
}

#[test]
fn envelope_tags_sender() {
    let (_po, _bus_rx, boxes) = bus_with(3);
    let p = boxes[2].envelope(Message::Shutdown);
    assert_eq!(p.sender_number, 3);
    assert_eq!(p.message, Message::Shutdown);
    assert_eq!(boxes[2].mailbox_number(), 3);
}

#[test]
fn wait_for_package_queues_one_package() {
    let (mut po, bus_rx, mut boxes) = bus_with(2);
    boxes[1].broadcast(Message::ToggleClicker).unwrap();
    pump(&mut po, &bus_rx);
    assert_eq!(boxes[0].wait_for_package(), Ok(()));
    assert_eq!(boxes[0].take_foreign(), Some(Message::ToggleClicker));
    assert_eq!(boxes[0].take_foreign(), None);
}

#[test]
fn wait_for_package_fails_once_bus_is_gone() {
    let (po, _bus_rx, mut boxes) = bus_with(1);
    drop(po);
    assert_eq!(boxes[0].wait_for_package(), Err(()));
}

#[test]
fn subscription_only_sees_later_broadcasts() {
    let (bus_tx, bus_rx) = channel::<Submission>();
    let mut po = PostOffice::new();
    let (tx_a, rx_a) = channel::<Package>();
    bus_tx.send(Submission::Subscribe(tx_a)).unwrap();
    let mut a = Mailbox::new(1, bus_tx.clone(), rx_a);
    a.broadcast(Message::ToggleClicker).unwrap();
    let (tx_b, rx_b) = channel::<Package>();
    bus_tx.send(Submission::Subscribe(tx_b)).unwrap();
    let mut b = Mailbox::new(2, bus_tx.clone(), rx_b);
    a.broadcast(Message::Shutdown).unwrap();
    pump(&mut po, &bus_rx);
    assert_eq!(po.listener_count(), 2);
    assert_eq!(b.try_recv(), Ok(Some(Message::Shutdown)));
    assert_eq!(b.try_recv(), Ok(None));
}

#[test]
fn polled_package_from_elsewhere_is_handed_out() {
    let (_po, _bus_rx, mut boxes) = bus_with(1);
    let p = Message::ToggleClicker.package(7);
    assert_eq!(boxes[0].take_polled(Polled::Ready(p)), Ok(Some(Message::ToggleClicker)));
    assert_eq!(boxes[0].take_polled(Polled::Empty), Ok(None));
}

#[test]
fn polled_own_package_is_dropped() {
    let (_po, _bus_rx, mut boxes) = bus_with(1);
    let own = Message::Shutdown.package(1);
    assert_eq!(boxes[0].take_polled(Polled::Ready(own)), Ok(None));
    assert_eq!(boxes[0].take_polled(Polled::Closed), Err(()));
}

#[test]
fn mailbox_numbers_start_at_one_and_increase() {
    let mut numbers = MailboxNumbers::new();
    assert_eq!(numbers.next_number(), Some(1));
    assert_eq!(numbers.next_number(), Some(2));
    assert_eq!(numbers.next_number(), Some(3));
}
