use padre::notifier::{Notifier, ListenerAddr};
use tokio::sync::mpsc;

fn create_notifier_with_listeners() -> Notifier<mpsc::Sender<u8>> {
    let mut notifier = Notifier::new();

    let (sender, _) = mpsc::channel(1);
    let socket_addr = ListenerAddr::v4(127, 0, 0, 1, 8080);

    notifier.add_listener(sender, socket_addr);

    let (sender, _) = mpsc::channel(1);
    let socket_addr = ListenerAddr::v4(127, 0, 0, 1, 8081);

    notifier.add_listener(sender, socket_addr);

    notifier
}

#[test]
fn check_can_add_listeners() {
    let notifier = create_notifier_with_listeners();

    assert_eq!(notifier.listeners().len(), 2);
}

#[test]
fn check_can_remove_listener() {
    let mut notifier = create_notifier_with_listeners();

    let socket_addr = ListenerAddr::v4(127, 0, 0, 1, 8081);
    notifier.remove_listener(&socket_addr);

    let socket_addr = ListenerAddr::v4(127, 0, 0, 1, 8080);
    notifier.remove_listener(&socket_addr);

    assert_eq!(notifier.listeners().len(), 0);
}

#[test]
fn removing_keeps_the_others_in_order() {
    let mut n: Notifier<u8> = Notifier::new();
    n.add_listener(1, ListenerAddr::v4(10, 0, 0, 1, 1));
    n.add_listener(2, ListenerAddr::v4(10, 0, 0, 1, 2));
    n.add_listener(3, ListenerAddr::v4(10, 0, 0, 1, 1));
    n.add_listener(4, ListenerAddr::v4(10, 0, 0, 2, 1));
    n.remove_listener(&ListenerAddr::v4(10, 0, 0, 1, 1));
    let left: Vec<u8> = n.listeners().iter().map(|l| l.0).collect();
    assert_eq!(left, vec![2, 4]);
    n.remove_listener(&ListenerAddr::v4(1, 1, 1, 1, 1));
    assert_eq!(n.listeners().len(), 2);
    assert_eq!(ListenerAddr::v4(127, 0, 0, 1, 80).ip, 0x7f000001);
}
