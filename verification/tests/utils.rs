use lockrs::utils::global::Global;
use lockrs::utils::late::Late;

#[test]
fn late_starts_uninitialized() {
    let late = Late::<String>::uninit();
    assert!(!late.is_init());
    let late: Late<u32> = Late::default();
    assert!(!late.is_init());
}

#[test]
fn late_reads_what_init_wrote() {
    let mut late = Late::<String>::uninit();
    late.init(String::from("sorry im late"));
    assert!(late.is_init());
    assert_eq!(late.get().as_str(), "sorry im late");
}

#[test]
fn late_init_twice_keeps_the_last_value() {
    let mut late = Late::uninit();
    late.init(1u32);
    late.init(2u32);
    assert!(late.is_init());
    assert_eq!(*late.get(), 2);
}

#[test]
fn late_get_mut_writes_through() {
    let mut late = Late::uninit();
    late.init(vec![1u8]);
    late.get_mut().push(2);
    assert_eq!(late.get(), &vec![1u8, 2]);
}

#[test]
fn global_keeps_object_and_name() {
    let mut g = Global::new(String::from("wl_compositor"), 4);
    assert_eq!(g.name, 4);
    assert_eq!(g.get(), "wl_compositor");
    g.get_mut().push_str("_v6");
    assert_eq!(g.global, "wl_compositor_v6");
    assert_eq!(g.name, 4);
    assert_eq!(Global::new(1u8, 2), Global { global: 1u8, name: 2 });
    assert!(Global::new(1u8, 2) < Global::new(1u8, 3));
}

#[test]
fn late_stays_initialized_through_reads_and_writes() {
    let mut late: Late<u32> = Late::default();
    assert!(!late.is_init());
    assert!(!late.is_init());
    late.init(5);
    assert_eq!(*late.get(), 5);
    *late.get_mut() = 9;
    assert!(late.is_init());
    assert_eq!(*late.get(), 9);
    late.init(1);
    assert!(late.is_init());
    assert_eq!(*late.get(), 1);
}
