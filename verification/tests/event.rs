use ptymux::ansitypes::{ClearMode, LineClearMode};
use ptymux::event::{Action, Column, Line, PtyIndex};
use ptymux::surface::Coord;

#[test]
fn decoded_events_become_screen_events_of_the_session() {
    let i = PtyIndex(3);
    assert_eq!(Action::HostInput('a').for_session(i), Action::PtyOutput(i, 'a'));
    assert_eq!(Action::HostBackspace.for_session(i), Action::PtyBackspace(i));
    assert_eq!(Action::HostPutTabs(2).for_session(i), Action::PtyPutTabs(i, 2));
    assert_eq!(Action::HostCarriageReturn.for_session(i), Action::PtyCarriageReturn(i));
    assert_eq!(Action::HostLineFeed.for_session(i), Action::PtyLineFeed(i));
    assert_eq!(Action::HostNewline.for_session(i), Action::PtyNewline(i));
    assert_eq!(Action::HostSubtitute.for_session(i), Action::PtySubtitute(i));
    assert_eq!(Action::HostControlInput(7).for_session(i), Action::PtyBell(i));
    assert_eq!(Action::HostControlInput(3).for_session(i), Action::Noop);
    assert_eq!(Action::HostCursorMoveUp(Line(2)).for_session(i), Action::PtyCursorMoveUp(i, Line(2)));
    assert_eq!(Action::HostCursorMoveDown(Line(2)).for_session(i), Action::PtyCursorMoveDown(i, Line(2)));
    assert_eq!(
        Action::HostCursorMoveForward(Column(2)).for_session(i),
        Action::PtyCursorMoveForward(i, Column(2))
    );
    assert_eq!(
        Action::HostCursorMoveBackward(Column(2)).for_session(i),
        Action::PtyCursorMoveBackward(i, Column(2))
    );
    assert_eq!(
        Action::HostCursorGoto(Line(1), Column(2)).for_session(i),
        Action::PtyCursorGoto(i, Line(1), Column(2))
    );
    assert_eq!(
        Action::HostClearLine(LineClearMode::All).for_session(i),
        Action::PtyClearLine(i, LineClearMode::All)
    );
    assert_eq!(
        Action::HostClearScreen(ClearMode::Below).for_session(i),
        Action::PtyClearScreen(i, ClearMode::Below)
    );
}

#[test]
fn keys_and_loop_events_mean_nothing_to_a_screen() {
    let i = PtyIndex(0);
    for action in [
        Action::HostDeleteKey,
        Action::HostInsertKey,
        Action::HostPageUpKey,
        Action::HostPageDownKey,
        Action::KeyInputReceived(1),
        Action::HostMouseInputReceived(1),
        Action::Noop,
        Action::Startup,
        Action::ModeChange,
        Action::PtyDead(0),
        Action::PtyOutReceived(0, 1),
        Action::PtyResize(0, Coord { x: 1, y: 1 }),
        Action::PtyOutput(PtyIndex(1), 'a'),
    ] {
        assert_eq!(action.for_session(i), Action::Noop);
    }
}

#[test]
fn host_events_are_told_apart() {
    assert!(Action::HostInput('a').is_host());
    assert!(Action::HostDeleteKey.is_host());
    assert!(Action::KeyInputReceived(0).is_host());
    assert!(Action::HostCursorRestorePosition.is_host());
    assert!(!Action::PtyOutput(PtyIndex(0), 'a').is_host());
    assert!(!Action::PtyDead(0).is_host());
    assert!(!Action::Noop.is_host());
    assert!(!Action::Startup.is_host());
}

#[test]
fn screen_events_name_their_session() {
    assert_eq!(Action::PtyOutput(PtyIndex(4), 'a').screen_of(), Some(4));
    assert_eq!(Action::PtyBell(PtyIndex(0)).screen_of(), Some(0));
    assert_eq!(Action::PtySetColor(PtyIndex(9), 1, (1, 2, 3)).screen_of(), Some(9));
    assert_eq!(Action::PtyOutReceived(4, 1).screen_of(), None);
    assert_eq!(Action::PtyDead(4).screen_of(), None);
    assert_eq!(Action::PtyResize(4, Coord { x: 1, y: 1 }).screen_of(), None);
    assert_eq!(Action::PtyActiveChange(4).screen_of(), None);
    assert_eq!(Action::HostInput('a').screen_of(), None);
    assert_eq!(Action::Noop.screen_of(), None);
}
