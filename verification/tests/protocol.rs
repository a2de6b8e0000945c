use r3::point::Point;
use r3::rect::{Quadrant, Rect};
use r3::text::decimal_string;
use r3::wm::masks;
use r3::wm::masks::{state_contains, Masks};
use xcb::x::{EventMask, KeyButMask};

#[test]
fn the_masks_are_those_of_the_protocol() {
    assert_eq!(masks::NO_EVENT, EventMask::NO_EVENT.bits());
    assert_eq!(masks::BUTTON_PRESS, EventMask::BUTTON_PRESS.bits());
    assert_eq!(masks::BUTTON_RELEASE, EventMask::BUTTON_RELEASE.bits());
    assert_eq!(masks::ENTER_WINDOW, EventMask::ENTER_WINDOW.bits());
    assert_eq!(masks::POINTER_MOTION, EventMask::POINTER_MOTION.bits());
    assert_eq!(masks::BUTTON_MOTION, EventMask::BUTTON_MOTION.bits());
    assert_eq!(masks::EXPOSURE, EventMask::EXPOSURE.bits());
    assert_eq!(masks::STRUCTURE_NOTIFY, EventMask::STRUCTURE_NOTIFY.bits());
    assert_eq!(masks::SUBSTRUCTURE_NOTIFY, EventMask::SUBSTRUCTURE_NOTIFY.bits());
    assert_eq!(masks::SUBSTRUCTURE_REDIRECT, EventMask::SUBSTRUCTURE_REDIRECT.bits());
    assert_eq!(masks::FOCUS_CHANGE, EventMask::FOCUS_CHANGE.bits());
    assert_eq!(masks::PROPERTY_CHANGE, EventMask::PROPERTY_CHANGE.bits());
    assert_eq!(masks::STATE_SHIFT, KeyButMask::SHIFT.bits());
    assert_eq!(masks::STATE_CONTROL, KeyButMask::CONTROL.bits());
    assert_eq!(masks::STATE_BUTTON1, KeyButMask::BUTTON1.bits());
    assert_eq!(masks::STATE_BUTTON3, KeyButMask::BUTTON3.bits());
}

#[test]
fn the_manager_selects_these_events() {
    let masks = Masks::new();
    assert_eq!(
        EventMask::from_bits(masks.manager_events),
        Some(EventMask::SUBSTRUCTURE_REDIRECT | EventMask::SUBSTRUCTURE_NOTIFY)
    );
    assert_eq!(
        EventMask::from_bits(masks.child_window_events),
        Some(EventMask::PROPERTY_CHANGE | EventMask::SUBSTRUCTURE_NOTIFY | EventMask::FOCUS_CHANGE)
    );
    assert_eq!(
        EventMask::from_bits(masks.frame_window_events),
        Some(
            EventMask::BUTTON_PRESS
                | EventMask::BUTTON_RELEASE
                | EventMask::BUTTON_MOTION
                | EventMask::EXPOSURE
                | EventMask::STRUCTURE_NOTIFY
                | EventMask::SUBSTRUCTURE_NOTIFY
                | EventMask::SUBSTRUCTURE_REDIRECT
                | EventMask::ENTER_WINDOW
        )
    );
    assert_eq!(
        EventMask::from_bits(masks.root_window_events),
        Some(
            EventMask::BUTTON_PRESS
                | EventMask::STRUCTURE_NOTIFY
                | EventMask::SUBSTRUCTURE_REDIRECT
                | EventMask::POINTER_MOTION
                | EventMask::PROPERTY_CHANGE
                | EventMask::FOCUS_CHANGE
                | EventMask::ENTER_WINDOW
        )
    );
    assert_eq!(
        EventMask::from_bits(masks.button_grab_events),
        Some(EventMask::BUTTON_PRESS | EventMask::BUTTON_RELEASE | EventMask::BUTTON_MOTION)
    );
    assert_eq!(
        EventMask::from_bits(masks.frame_events_while_reparenting()),
        Some(EventMask::from_bits(masks.frame_window_events).unwrap() & !EventMask::ENTER_WINDOW)
    );
    assert_eq!(masks.frame_events_while_reparenting() & masks::ENTER_WINDOW, 0);
}

#[test]
fn a_state_holds_all_bits_or_not() {
    assert!(state_contains(0x0105, masks::STATE_CONTROL));
    assert!(state_contains(0x0105, masks::STATE_CONTROL | masks::STATE_SHIFT));
    assert!(!state_contains(0x0104, masks::STATE_CONTROL | masks::STATE_SHIFT));
    assert!(state_contains(0x0105, masks::STATE_BUTTON1));
    assert!(!state_contains(0x0105, masks::STATE_BUTTON3));
    assert!(state_contains(0, 0));
}

#[test]
fn numbers_in_decimal() {
    assert_eq!(decimal_string(0), "0");
    assert_eq!(decimal_string(9), "9");
    assert_eq!(decimal_string(10), "10");
    assert_eq!(decimal_string(1729), "1729");
    assert_eq!(decimal_string(u64::MAX), "18446744073709551615");
}

#[test]
fn rect_quadrants() {
    let r = Rect::new(100, 200, 40, 60);
    assert!(r.contains(&Point::new(100, 200)));
    assert!(r.contains(&Point::new(140, 260)));
    assert!(!r.contains(&Point::new(141, 260)));
    assert!(!r.contains(&Point::new(99, 200)));
    assert_eq!(r.quadrant(&Point::new(119, 229)), Some(Quadrant::TopLeft));
    assert_eq!(r.quadrant(&Point::new(121, 229)), Some(Quadrant::TopRight));
    assert_eq!(r.quadrant(&Point::new(119, 231)), Some(Quadrant::BottomLeft));
    assert_eq!(r.quadrant(&Point::new(121, 231)), Some(Quadrant::BottomRight));
    assert_eq!(r.quadrant(&Point::new(120, 230)), Some(Quadrant::TopLeft));
    assert_eq!(r.quadrant(&Point::new(0, 0)), None);
    let r: Rect = (1, 2, 3, 4).into();
    assert_eq!(r, Rect::new(1, 2, 3, 4));
    let far = Rect::new(32767, 32767, 65535, 65535);
    assert!(far.contains(&Point::new(32767, 32767)));
    assert_eq!(far.quadrant(&Point::new(32767, 32767)), Some(Quadrant::TopLeft));
}
