use leopardwm::geometry::Rect;
use leopardwm::inspect::{
    inspect_windows, is_dialog_like_window, is_excluded_tool_window, should_skip_window_by_class,
    should_skip_window_by_title, SkipReason, WindowBounds, WindowFacts, WS_CAPTION,
    WS_EX_APPWINDOW, WS_EX_NOACTIVATE, WS_EX_TOOLWINDOW, WS_MAXIMIZEBOX, WS_MINIMIZEBOX,
    WS_THICKFRAME, WS_VISIBLE,
};

fn ordinary() -> WindowFacts {
    WindowFacts {
        hwnd: 1,
        visible: true,
        minimized: false,
        style: WS_VISIBLE,
        ex_style: 0,
        owner_hwnd: None,
        cloaked: false,
        title: "Editor".into(),
        class_name: "EditorClass".into(),
        process_id: 4,
        bounds: Some(WindowBounds {
            left: 10,
            top: 20,
            right: 110,
            bottom: 220,
        }),
    }
}

#[test]
fn skip_class_and_title_leaf_predicates() {
    assert!(should_skip_window_by_class("#32770"));
    assert!(should_skip_window_by_title("Program Manager"));
}

#[test]
fn every_skipped_class_is_known() {
    for class in [
        "Progman",
        "Shell_TrayWnd",
        "Shell_SecondaryTrayWnd",
        "WorkerW",
        "Windows.UI.Core.CoreWindow",
        "XamlExplorerHostIslandWindow",
        "TopLevelWindowForOverflowXamlIsland",
        "RAIL_WINDOW",
        "Ghost",
        "Chrome_RenderWidgetHostHWND",
    ] {
        assert!(should_skip_window_by_class(class), "{class}");
    }
    assert!(!should_skip_window_by_class("Chrome_WidgetWin_1"));
    assert!(!should_skip_window_by_class("progman"));
    assert!(!should_skip_window_by_title("Program Manager 2"));
    assert!(!should_skip_window_by_title(""));
}

#[test]
fn each_reason_is_given_in_order() {
    let check = |change: &dyn Fn(&mut WindowFacts), startup, live| {
        let mut facts = ordinary();
        change(&mut facts);
        assert_eq!(facts.classify_startup(), startup);
        assert_eq!(facts.classify_live_create(), live);
    };
    check(&|_| {}, Ok(()), Ok(()));
    check(
        &|f| f.visible = false,
        Err(SkipReason::NotVisible),
        Err(SkipReason::NotVisible),
    );
    check(
        &|f| f.minimized = true,
        Err(SkipReason::Minimized),
        Err(SkipReason::Minimized),
    );
    check(
        &|f| f.style = 0,
        Err(SkipReason::StyleNotVisible),
        Err(SkipReason::StyleNotVisible),
    );
    // The two paths look at these two in a different order.
    check(
        &|f| {
            f.style = 0;
            f.minimized = true;
        },
        Err(SkipReason::Minimized),
        Err(SkipReason::StyleNotVisible),
    );
    check(
        &|f| f.ex_style = WS_EX_TOOLWINDOW,
        Err(SkipReason::ToolWindow),
        Err(SkipReason::ToolWindow),
    );
    check(
        &|f| f.ex_style = WS_EX_NOACTIVATE,
        Err(SkipReason::NoActivate),
        Err(SkipReason::NoActivate),
    );
    check(
        &|f| f.owner_hwnd = Some(9),
        Err(SkipReason::Owned),
        Err(SkipReason::Owned),
    );
    check(&|f| f.cloaked = true, Err(SkipReason::Cloaked), Ok(()));
    check(
        &|f| f.title = String::new(),
        Err(SkipReason::EmptyOrUnreadableTitle),
        Ok(()),
    );
    check(
        &|f| f.title = "Program Manager".into(),
        Err(SkipReason::SkipTitle),
        Ok(()),
    );
    check(
        &|f| f.class_name = "Ghost".into(),
        Err(SkipReason::SkipClass),
        Err(SkipReason::SkipClass),
    );
    check(
        &|f| f.bounds = None,
        Err(SkipReason::RectReadFailed),
        Err(SkipReason::RectReadFailed),
    );
    check(
        &|f| {
            f.bounds = Some(WindowBounds {
                left: 5,
                top: 5,
                right: 5,
                bottom: 9,
            })
        },
        Err(SkipReason::ZeroSize),
        Err(SkipReason::ZeroSize),
    );
}

#[test]
fn windows_are_reported_with_both_verdicts() {
    let mut cloaked = ordinary();
    cloaked.hwnd = 2;
    cloaked.cloaked = true;
    let report = inspect_windows(&vec![ordinary(), cloaked]);
    assert_eq!(report.len(), 2);
    assert_eq!(report[0].hwnd, 1);
    assert_eq!(report[0].title, "Editor");
    assert_eq!(report[0].class_name, "EditorClass");
    assert_eq!(report[0].process_id, 4);
    assert_eq!(report[0].rect, Some(Rect::new(10, 20, 100, 200)));
    assert_eq!(report[0].startup_verdict, Ok(()));
    assert_eq!(report[1].startup_verdict, Err(SkipReason::Cloaked));
    assert_eq!(report[1].live_create_verdict, Ok(()));
    assert_eq!(ordinary().read_rect(), Ok(Rect::new(10, 20, 100, 200)));
}

#[test]
fn tool_window_exception_preserved() {
    let thick = WS_THICKFRAME;
    let tool = WS_EX_TOOLWINDOW;
    let app = WS_EX_APPWINDOW;
    assert!(!is_excluded_tool_window(thick, tool | app));
    assert!(is_excluded_tool_window(0, tool));
    assert!(!is_excluded_tool_window(thick, app));
    assert!(!is_excluded_tool_window(0, 0));
}

#[test]
fn dialogs_have_a_title_bar_and_no_buttons() {
    assert!(is_dialog_like_window(WS_VISIBLE | WS_CAPTION));
    assert!(!is_dialog_like_window(WS_CAPTION | WS_MINIMIZEBOX));
    assert!(!is_dialog_like_window(WS_CAPTION | WS_MAXIMIZEBOX));
    // Half of a title bar is none.
    assert!(!is_dialog_like_window(WS_CAPTION & (WS_CAPTION >> 1)));
    assert!(!is_dialog_like_window(0));
}
