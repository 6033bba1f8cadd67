use std::cell::RefCell;

use herdr_platform::unix_desktop::commands::{
    clipboard_commands, read_clipboard_text, read_clipboard_text_commands, write_clipboard,
    ClipboardCommand, DisplaySession,
};
use herdr_platform::unix_desktop::helper_read::{
    read_clipboard_image_with_spawned_command_max, read_clipboard_text_with_command, LimitedRead,
    ReadEvent, ReadStep, MAX_CLIPBOARD_TEXT_BYTES,
};
use herdr_platform::unix_desktop::helper_write::{
    detach_clipboard_owner, run_clipboard_command, wait_for_wl_copy_startup, WriteEvent, WriteStep,
    POLL_INTERVAL_NANOS, STARTUP_WAIT_NANOS,
};
use herdr_platform::unix_desktop::image::{
    bytes_match_image_signature, image_sources, read_clipboard_image,
    read_validated_clipboard_image, read_wsl_clipboard_image_with_command, ClipboardImage,
};
use herdr_platform::unix_desktop::notification::{
    notification_args, run_notification_command, show_desktop_notification, HelperOutcome,
};
use herdr_platform::unix_desktop::open::open_url;

const WAYLAND: DisplaySession = DisplaySession {
    wayland: true,
    x11: false,
};
const X11: DisplaySession = DisplaySession {
    wayland: false,
    x11: true,
};
const BOTH: DisplaySession = DisplaySession {
    wayland: true,
    x11: true,
};
const NEITHER: DisplaySession = DisplaySession {
    wayland: false,
    x11: false,
};

/// A helper that plays its part in an exchange.
#[derive(Clone, Copy)]
struct FakeHelper {
    starts: bool,
    has_pipe: bool,
    takes_input: bool,
    exit: Option<bool>,
    poll_fails: bool,
    reaper_starts: bool,
}

const FINITE: FakeHelper = FakeHelper {
    starts: true,
    has_pipe: true,
    takes_input: true,
    exit: Some(true),
    poll_fails: false,
    reaper_starts: true,
};

fn outcome(ok: bool) -> WriteEvent {
    if ok {
        WriteEvent::Succeeded
    } else {
        WriteEvent::Failed
    }
}

/// Runs an exchange with the helper, and gives its steps and whether the helper took the bytes.
fn exchange(first: WriteStep, helper: FakeHelper) -> (Vec<WriteStep>, bool) {
    let mut steps = vec![first];
    let mut step = first;
    let mut elapsed = 0;
    loop {
        let event = match step {
            WriteStep::Spawn { .. } => outcome(helper.starts),
            WriteStep::TakeInput { .. } => outcome(helper.has_pipe),
            WriteStep::WriteInput { .. } => outcome(helper.takes_input),
            WriteStep::CloseInput { .. } => WriteEvent::Succeeded,
            WriteStep::Wait => match helper.exit {
                Some(success) => WriteEvent::Exited { success },
                None => WriteEvent::Failed,
            },
            WriteStep::Poll if helper.poll_fails => WriteEvent::Failed,
            WriteStep::Poll => match helper.exit {
                Some(success) => WriteEvent::Exited { success },
                None => WriteEvent::Running { elapsed },
            },
            WriteStep::Pause => {
                elapsed += u128::from(POLL_INTERVAL_NANOS);
                WriteEvent::Succeeded
            }
            WriteStep::StartReaper => outcome(helper.reaper_starts),
            WriteStep::Kill => WriteEvent::Failed,
            WriteStep::Reap => WriteEvent::Succeeded,
            WriteStep::Done { taken } => return (steps, taken),
        };
        step = step.advance(event);
        steps.push(step);
    }
}

#[test]
fn clipboard_commands_prefer_wayland_when_available() {
    let session = DisplaySession::detect(&|name: &str| name == "WAYLAND_DISPLAY");
    let commands = clipboard_commands(session);
    assert_eq!(commands.len(), 1);
    assert_eq!(commands[0].program, "wl-copy");
    assert_eq!(commands[0].args, ["--type", "text/plain;charset=utf-8"]);
}

#[test]
fn wl_copy_owner_does_not_block_clipboard_write() {
    let command = ClipboardCommand {
        program: "wl-copy",
        args: &["--type", "text/plain;charset=utf-8"],
    };
    let owner = FakeHelper {
        exit: None,
        ..FINITE
    };
    let (steps, taken) = exchange(run_clipboard_command(&command), owner);
    assert!(
        taken,
        "clipboard writes must return while wl-copy remains alive to own the selection"
    );
    assert!(!steps.contains(&WriteStep::Wait));
    assert!(
        steps.contains(&WriteStep::StartReaper),
        "wl-copy owner should be reaped after exit"
    );
    let pauses = steps.iter().filter(|step| **step == WriteStep::Pause).count();
    assert_eq!(pauses as u128, STARTUP_WAIT_NANOS / u128::from(POLL_INTERVAL_NANOS));

    let ((actual_payload, actual_args), written) = write_clipboard(
        WAYLAND,
        b"clipboard text",
        (Vec::new(), String::new()),
        |(mut payload, mut args): (Vec<u8>, String), command, bytes| {
            payload.extend_from_slice(bytes);
            for arg in command.args {
                args.push_str(arg);
                args.push('\n');
            }
            let taken = exchange(run_clipboard_command(command), owner).1;
            ((payload, args), taken)
        },
    );
    assert!(written);
    assert_eq!(actual_payload, b"clipboard text");
    assert_eq!(actual_args, "--type\ntext/plain;charset=utf-8\n");
}

#[test]
fn failed_wl_copy_uses_x11_fallback() {
    let (runs, written) = write_clipboard(
        BOTH,
        b"clipboard fallback",
        Vec::new(),
        |mut runs: Vec<(&'static str, Vec<u8>)>, command, bytes| {
            runs.push((command.program, bytes.to_vec()));
            let exit = Some(command.program != "wl-copy");
            let taken =
                exchange(run_clipboard_command(command), FakeHelper { exit, ..FINITE }).1;
            (runs, taken)
        },
    );
    assert!(written);
    // xclip took the bytes, so xsel is not run.
    assert_eq!(
        runs,
        vec![
            ("wl-copy", b"clipboard fallback".to_vec()),
            ("xclip", b"clipboard fallback".to_vec()),
        ]
    );
}

#[test]
fn finite_clipboard_commands_report_exit_status() {
    let success = ClipboardCommand {
        program: "sh",
        args: &["-c", "cat >/dev/null"],
    };
    let failure = ClipboardCommand {
        program: "sh",
        args: &["-c", "cat >/dev/null; exit 7"],
    };
    let run = |command: &ClipboardCommand, _bytes: &[u8]| {
        let exit = Some(!command.args[1].ends_with("exit 7"));
        exchange(run_clipboard_command(command), FakeHelper { exit, ..FINITE }).1
    };

    assert!(run(&success, b"clipboard text"));
    assert!(!run(&failure, b"clipboard text"));
}

#[test]
fn helpers_that_fail_are_killed_and_reaped() {
    let start = WriteStep::Spawn { owner: false };
    let (steps, taken) = exchange(start, FakeHelper { starts: false, ..FINITE });
    assert_eq!((steps.len(), taken), (2, false));

    for helper in [
        FakeHelper { has_pipe: false, ..FINITE },
        FakeHelper { takes_input: false, ..FINITE },
    ] {
        let (steps, taken) = exchange(start, helper);
        assert!(!taken);
        assert_eq!(
            steps[steps.len() - 3..],
            [WriteStep::Kill, WriteStep::Reap, WriteStep::Done { taken: false }]
        );
    }
    let (_, taken) = exchange(start, FakeHelper { exit: None, ..FINITE });
    assert!(!taken);

    let (steps, taken) = exchange(
        wait_for_wl_copy_startup(),
        FakeHelper { poll_fails: true, ..FINITE },
    );
    assert!(!taken);
    assert_eq!(steps[1..3], [WriteStep::Kill, WriteStep::Reap]);

    let (steps, taken) = exchange(
        detach_clipboard_owner(),
        FakeHelper { reaper_starts: false, ..FINITE },
    );
    assert!(!taken);
    assert_eq!(steps[1..3], [WriteStep::Kill, WriteStep::Reap]);
}

#[test]
fn owners_that_end_early_tell_how() {
    for success in [true, false] {
        let helper = FakeHelper {
            exit: Some(success),
            ..FINITE
        };
        assert_eq!(exchange(wait_for_wl_copy_startup(), helper).1, success);
    }
    assert_eq!(
        WriteStep::Poll.advance(WriteEvent::Running { elapsed: STARTUP_WAIT_NANOS - 1 }),
        WriteStep::Pause
    );
    assert_eq!(
        WriteStep::Poll.advance(WriteEvent::Running { elapsed: STARTUP_WAIT_NANOS }),
        WriteStep::StartReaper
    );
    assert_eq!(STARTUP_WAIT_NANOS, 100_000_000);
    assert_eq!(POLL_INTERVAL_NANOS, 5_000_000);
}

#[test]
fn clipboard_commands_include_x11_fallbacks() {
    let session = DisplaySession::detect(&|name: &str| name == "DISPLAY");
    let commands = clipboard_commands(session);
    assert_eq!(commands.len(), 2);
    assert_eq!(commands[0].program, "xclip");
    assert_eq!(commands[1].program, "xsel");
    assert_eq!(commands[0].args, ["-selection", "clipboard", "-in"]);
    assert_eq!(commands[1].args, ["--clipboard", "--input"]);
}

#[test]
fn read_clipboard_text_commands_include_session_backends() {
    let session = DisplaySession::detect(&|name: &str| ["WAYLAND_DISPLAY", "DISPLAY"].contains(&name));
    let commands = read_clipboard_text_commands(session);
    assert_eq!(commands[0].program, "wl-paste");
    assert_eq!(commands[1].program, "wl-paste");
    assert_eq!(commands[2].program, "xclip");
    assert_eq!(commands[3].program, "xsel");
    assert_eq!(commands.len(), 4);
    assert_eq!(commands[0].args, ["--type", "text/plain;charset=utf-8"]);
    assert_eq!(commands[1].args, ["--type", "text/plain"]);
    assert_eq!(commands[2].args, ["-selection", "clipboard", "-out"]);
    assert_eq!(commands[3].args, ["--clipboard", "--output"]);
}

#[test]
fn without_a_display_server_nothing_is_tried() {
    assert!(clipboard_commands(NEITHER).is_empty());
    assert!(read_clipboard_text_commands(NEITHER).is_empty());
    assert_eq!(write_clipboard(NEITHER, b"x", 7, |runs, _, _| (runs + 1, true)), (7, false));
    assert_eq!(read_clipboard_text(NEITHER, |_| Some("x".to_string())), None);
    assert_eq!(read_clipboard_image(false, NEITHER, &|_, _| Some(Vec::new())), None);
}

#[test]
fn helpers_are_tried_until_one_helps() {
    for (helper, expected) in [
        ("wl-copy", vec!["wl-copy"]),
        ("xclip", vec!["wl-copy", "xclip"]),
        ("xsel", vec!["wl-copy", "xclip", "xsel"]),
        ("none", vec!["wl-copy", "xclip", "xsel"]),
    ] {
        let (tried, written) = write_clipboard(
            BOTH,
            b"x",
            Vec::new(),
            |mut tried: Vec<&'static str>, command, _| {
                tried.push(command.program);
                (tried, command.program == helper)
            },
        );
        assert_eq!(tried, expected);
        assert_eq!(written, helper != "none");
    }

    let mut asked = Vec::new();
    let text = read_clipboard_text(BOTH, |command| {
        asked.push((command.program, command.args.len()));
        if command.program == "xclip" {
            Some("found".to_string())
        } else {
            None
        }
    });
    assert_eq!(text, Some("found".to_string()));
    assert_eq!(asked, vec![("wl-paste", 2), ("wl-paste", 2), ("xclip", 3)]);
}

/// Runs a reading exchange with a helper that prints `output` and ends with `success`.
fn printed(max_bytes: usize, output: &[u8], success: bool) -> (Vec<&'static str>, Option<Vec<u8>>) {
    let mut names = Vec::new();
    let mut step = read_clipboard_image_with_spawned_command_max(max_bytes);
    loop {
        let event = match &step {
            ReadStep::Spawn { .. } => {
                names.push("spawn");
                ReadEvent::Succeeded
            }
            ReadStep::TakeOutput { .. } => {
                names.push("take");
                ReadEvent::Succeeded
            }
            ReadStep::ReadOutput { max_bytes } => {
                names.push("read");
                let end = output.len().min(max_bytes + 1);
                ReadEvent::Output(output[..end].to_vec())
            }
            ReadStep::Wait { .. } => {
                names.push("wait");
                ReadEvent::Exited { success }
            }
            ReadStep::Kill => {
                names.push("kill");
                ReadEvent::Succeeded
            }
            ReadStep::Reap => {
                names.push("reap");
                ReadEvent::Failed
            }
            ReadStep::Done { bytes } => return (names, bytes.clone()),
        };
        step = step.advance(event);
    }
}

#[test]
fn read_clipboard_text_with_command_reads_utf8() {
    let command = ClipboardCommand {
        program: "printf",
        args: &["feature/linear-302"],
    };
    let print = |command: &ClipboardCommand, max_bytes: usize| {
        printed(max_bytes, command.args[0].as_bytes(), true).1
    };

    assert_eq!(
        read_clipboard_text_with_command(&command, print).as_deref(),
        Some("feature/linear-302")
    );
}

#[test]
fn read_clipboard_text_with_command_rejects_oversized_output() {
    let command = ClipboardCommand {
        program: "sh",
        args: &["-c", "yes x | head -c 1048578"],
    };
    let print = |_: &ClipboardCommand, max_bytes: usize| {
        let (names, bytes) = printed(max_bytes, &vec![b'x'; 1048578], true);
        assert_eq!(names, vec!["spawn", "take", "read", "kill", "reap"]);
        bytes
    };

    assert_eq!(read_clipboard_text_with_command(&command, print), None);
}

#[test]
fn clipboard_text_is_utf8_of_at_most_a_mebibyte() {
    let command = ClipboardCommand {
        program: "printf",
        args: &[],
    };
    assert_eq!(MAX_CLIPBOARD_TEXT_BYTES, 1024 * 1024);
    let text = read_clipboard_text_with_command(&command, |_, max_bytes| {
        printed(max_bytes, &vec![b'y'; max_bytes], true).1
    });
    assert_eq!(text.map(|text| text.len()), Some(1048576));
    assert_eq!(
        read_clipboard_text_with_command(&command, |_, _| Some(b"caf\xc3\xa9".to_vec())),
        Some("caf\u{e9}".to_string())
    );
    assert_eq!(
        read_clipboard_text_with_command(&command, |_, _| Some(b"caf\xc3".to_vec())),
        None
    );
    assert_eq!(read_clipboard_text_with_command(&command, |_, _| None), None);
}

#[test]
fn read_clipboard_image_with_spawned_command_reads_under_limit() {
    assert_eq!(printed(16, b"image", true).1, Some(b"image".to_vec()));
}

#[test]
fn read_clipboard_image_with_spawned_command_rejects_over_limit() {
    assert_eq!(printed(4, b"oversized", true).1, None);
}

#[test]
fn reading_helpers_must_print_something_and_end_well() {
    assert_eq!(
        printed(5, b"image", true),
        (vec!["spawn", "take", "read", "wait"], Some(b"image".to_vec()))
    );
    assert_eq!(printed(5, b"image", false).1, None);
    assert_eq!(printed(5, b"", true).1, None);
    assert!(matches!(
        ReadStep::Spawn { max_bytes: 5 }.advance(ReadEvent::Failed),
        ReadStep::Done { bytes: None }
    ));
    assert!(matches!(
        ReadStep::TakeOutput { max_bytes: 5 }.advance(ReadEvent::Failed),
        ReadStep::Done { bytes: None }
    ));
    assert!(matches!(
        ReadStep::ReadOutput { max_bytes: 5 }.advance(ReadEvent::Failed),
        ReadStep::Kill
    ));
    let waiting = ReadStep::Wait {
        read: LimitedRead::Complete(vec![1]),
    };
    assert!(matches!(
        waiting.advance(ReadEvent::Failed),
        ReadStep::Done { bytes: None }
    ));
    assert_eq!(LimitedRead::classify(Vec::new(), 0), LimitedRead::Empty);
    assert_eq!(LimitedRead::classify(vec![1], 0), LimitedRead::Oversized);
    assert_eq!(LimitedRead::classify(vec![1], 1), LimitedRead::Complete(vec![1]));
}

#[test]
fn read_clipboard_image_rejects_xclip_text_served_for_image_target() {
    let asked = RefCell::new(0);
    let result = read_clipboard_image(false, X11, &|program: &str, args: &[&str]| {
        assert_eq!(program, "xclip");
        assert_eq!(args.len(), 5);
        *asked.borrow_mut() += 1;
        Some(b"# Tasks".to_vec())
    });
    assert_eq!(result, None);
    assert_eq!(*asked.borrow(), 6);
}

#[test]
fn read_clipboard_image_rejects_wayland_xclip_fallback_text_for_image_target() {
    let result = read_clipboard_image(false, BOTH, &|program: &str, _: &[&str]| {
        if program == "wl-paste" {
            None
        } else {
            Some(b"# Tasks".to_vec())
        }
    });
    assert_eq!(result, None);
}

#[test]
fn read_validated_clipboard_image_accepts_real_png_payload() {
    let print = |program: &str, args: &[&str]| {
        assert_eq!(program, "sh");
        assert_eq!(args, ["-c", "printf '\\211PNG\\r\\n\\032\\nrest-of-image'"]);
        Some(b"\x89PNG\r\n\x1a\nrest-of-image".to_vec())
    };
    assert_eq!(
        read_validated_clipboard_image(
            "sh",
            &["-c", "printf '\\211PNG\\r\\n\\032\\nrest-of-image'"],
            "png",
            &print
        ),
        Some(ClipboardImage {
            bytes: b"\x89PNG\r\n\x1a\nrest-of-image".to_vec(),
            extension: "png",
        })
    );
}

#[test]
fn read_wsl_clipboard_image_accepts_png_from_windows_command() {
    let print = |program: &str, args: &[&str]| {
        assert_eq!(program, "powershell.exe");
        assert_eq!(args[..4], ["-NoProfile", "-NonInteractive", "-STA", "-Command"]);
        assert!(args[4].starts_with("$ErrorActionPreference='Stop'; Add-Type"));
        assert!(args[4].ends_with("finally { $stream.Dispose(); $image.Dispose() }"));
        Some(b"\x89PNG\r\n\x1a\nrest-of-image".to_vec())
    };
    let image = ClipboardImage {
        bytes: b"\x89PNG\r\n\x1a\nrest-of-image".to_vec(),
        extension: "png",
    };
    assert_eq!(read_wsl_clipboard_image_with_command(&print), Some(image.clone()));
    assert_eq!(read_clipboard_image(true, BOTH, &print), Some(image));
    assert_eq!(
        read_wsl_clipboard_image_with_command(&|_: &str, _: &[&str]| Some(b"GIF89a".to_vec())),
        None
    );
}

#[test]
fn every_format_is_asked_for_at_each_display_server_in_turn() {
    let sources = image_sources(true, BOTH);
    let asked: Vec<(&str, String, &str)> = sources
        .iter()
        .map(|source| (source.program, source.args.join(" "), source.extension))
        .collect();
    assert_eq!(asked.len(), 13);
    assert_eq!(asked[0].0, "powershell.exe");
    let formats = [
        ("image/png", "png"),
        ("image/jpeg", "jpg"),
        ("image/jpg", "jpg"),
        ("image/gif", "gif"),
        ("image/webp", "webp"),
        ("image/bmp", "bmp"),
    ];
    for (i, (mime, extension)) in formats.iter().enumerate() {
        assert_eq!(asked[2 * i + 1], ("wl-paste", format!("--type {mime}"), *extension));
        assert_eq!(
            asked[2 * i + 2],
            ("xclip", format!("-selection clipboard -t {mime} -o"), *extension)
        );
    }
    assert_eq!(image_sources(false, WAYLAND).len(), 6);
}

#[test]
fn image_signatures_match_only_their_format() {
    assert!(bytes_match_image_signature("png", b"\x89PNG\r\n\x1a\n..."));
    assert!(bytes_match_image_signature(
        "jpg",
        &[0xFF, 0xD8, 0xFF, 0xE0]
    ));
    assert!(bytes_match_image_signature("gif", b"GIF87a..."));
    assert!(bytes_match_image_signature("gif", b"GIF89a..."));
    assert!(bytes_match_image_signature(
        "webp",
        b"RIFF\x10\x00\x00\x00WEBPVP8 "
    ));

    let mut bmp = vec![0u8; 26];
    bmp[..2].copy_from_slice(b"BM");
    bmp[10] = 26;
    assert!(bytes_match_image_signature("bmp", &bmp));

    assert!(!bytes_match_image_signature("png", b"# Tasks"));
    assert!(!bytes_match_image_signature("jpg", b"plain clipboard text"));
    assert!(!bytes_match_image_signature("gif", b""));
    assert!(!bytes_match_image_signature("webp", b"RIFF but not webp"));
    assert!(!bytes_match_image_signature("bmp", b"\x89PNG\r\n\x1a\n"));
    assert!(!bytes_match_image_signature(
        "bmp",
        b"BM text is not a bitmap"
    ));
    assert!(!bytes_match_image_signature("svg", b"<svg></svg>"));
}

#[test]
fn bitmaps_say_where_their_pixels_start() {
    let mut bmp = vec![0u8; 300];
    bmp[..2].copy_from_slice(b"BM");
    for (offset, valid) in [(25u32, false), (26, true), (300, true), (301, false), (0x0100_001a, false)] {
        bmp[10..14].copy_from_slice(&offset.to_le_bytes());
        assert_eq!(bytes_match_image_signature("bmp", &bmp), valid);
    }
    assert!(!bytes_match_image_signature("bmp", &bmp[..25]));
}

#[test]
fn no_bytes_match_two_formats() {
    let samples: [&[u8]; 5] = [
        b"\x89PNG\r\n\x1a\n",
        &[0xFF, 0xD8, 0xFF],
        b"GIF89a",
        b"RIFF....WEBP",
        b"BM........\x1a\0\0\0............",
    ];
    for (i, bytes) in samples.iter().enumerate() {
        for (j, extension) in ["png", "jpg", "gif", "webp", "bmp"].iter().enumerate() {
            assert_eq!(bytes_match_image_signature(extension, bytes), i == j);
        }
    }
}

#[test]
fn desktop_notification_separates_option_like_titles() {
    let session = DisplaySession::detect(&|name: &str| name == "DISPLAY");
    let shown = show_desktop_notification("-danger", Some("body"), session, |program, args| {
        assert_eq!(program, "notify-send");
        assert_eq!(args, vec!["--", "-danger", "body"]);
        HelperOutcome::<()>::Exited { success: true }
    })
    .expect("notification command should run");

    assert!(shown);
}

#[test]
fn notifications_need_a_display_and_a_helper() {
    assert_eq!(
        show_desktop_notification("t", None, NEITHER, |_, _| HelperOutcome::Failed(1)),
        Ok(false)
    );
    assert_eq!(
        show_desktop_notification("t", None, WAYLAND, |_, _| HelperOutcome::Failed(1)),
        Err(1)
    );
    assert_eq!(run_notification_command(HelperOutcome::<u8>::NotFound), Ok(false));
    assert_eq!(
        run_notification_command(HelperOutcome::<u8>::Exited { success: false }),
        Ok(false)
    );
    assert_eq!(notification_args("t", Some("")), vec!["--", "t"]);
    assert_eq!(notification_args("t", None), vec!["--", "t"]);
    assert_eq!(notification_args("", Some("b")), vec!["--", "", "b"]);
}

#[test]
fn addresses_are_opened_by_the_desktop() {
    let command = open_url("https://example.org/a b");
    assert_eq!(command.program, "xdg-open");
    assert_eq!(command.args, vec!["https://example.org/a b"]);
}
