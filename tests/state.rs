use jay::client::{Client, ClientError};
use jay::state::{GlobalError, SeatData, State};

#[test]
fn global_names_increase() {
    let mut st = State::new();
    let a = st.add_global("wl_compositor".to_string(), 4).unwrap();
    let b = st.add_global("wl_seat".to_string(), 7).unwrap();
    assert_eq!((a, b), (1, 2));
    let g = st.remove_global(a).unwrap();
    assert_eq!(g.interface, "wl_compositor");
    let c = st.add_global("wl_output".to_string(), 3).unwrap();
    assert!(c > b);
    assert!(matches!(st.remove_global(a), Err(GlobalError::UnknownGlobal(1))));
}

#[test]
fn global_names_run_out() {
    let mut st = State::new();
    st.next_name = u32::MAX;
    assert!(matches!(
        st.add_global("wl_shm".to_string(), 1),
        Err(GlobalError::NamesExhausted)
    ));
    assert!(st.globals.is_empty());
}

#[test]
fn bind_checks() {
    let mut st = State::new();
    let seat = st.add_global("wl_seat".to_string(), 7).unwrap();
    let mut c = Client::new(1);
    let iface = "wl_seat".to_string();
    assert_eq!(
        st.bind(&mut c, 9, &iface, 1, 3),
        Err(GlobalError::UnknownGlobal(9))
    );
    assert_eq!(
        st.bind(&mut c, seat, &"wl_output".to_string(), 1, 3),
        Err(GlobalError::InterfaceMismatch(seat))
    );
    assert_eq!(
        st.bind(&mut c, seat, &iface, 8, 3),
        Err(GlobalError::InvalidVersion(8))
    );
    assert_eq!(
        st.bind(&mut c, seat, &iface, 0, 3),
        Err(GlobalError::InvalidVersion(0))
    );
    assert_eq!(st.bind(&mut c, seat, &iface, 7, 3), Ok(()));
    assert!(c.contains(3));
    assert_eq!(
        st.bind(&mut c, seat, &iface, 7, 3),
        Err(GlobalError::ClientError(ClientError::IdInUse(3)))
    );
    st.remove_global(seat).unwrap();
    assert_eq!(
        st.bind(&mut c, seat, &iface, 7, 4),
        Err(GlobalError::UnknownGlobal(seat))
    );
}

#[test]
fn tree_changed_reaches_every_seat() {
    let mut st = State::new();
    assert!(st.add_seat(1, SeatData { handler: 10, tree_changed: false }).is_none());
    assert!(st.add_seat(2, SeatData { handler: 20, tree_changed: false }).is_none());
    let old = st.add_seat(2, SeatData { handler: 21, tree_changed: false }).unwrap();
    assert_eq!(old.handler, 20);
    st.tree_changed();
    let s1 = st.remove_seat(1).unwrap();
    let s2 = st.remove_seat(2).unwrap();
    assert!(s1.tree_changed && s2.tree_changed);
    assert_eq!((s1.handler, s2.handler), (10, 21));
    assert!(st.remove_seat(1).is_none());
}
