//! Action classes, interruption and disk resizing.
use proxmoxmcp::catalog::read_tools;
use proxmoxmcp::grant::ProxmoxAction;
use proxmoxmcp::guests::resize_shrinks;
use proxmoxmcp::tier::{interrupts_service, tier_of, Tier, DESTRUCTIVE_TOOLS, WRITE_TOOLS};

#[test]
fn every_read_tool_classifies_as_read() {
    for tool in read_tools() {
        assert_eq!(tier_of(tool.name), Some(Tier::Read), "tool {}", tool.name);
    }
}

#[test]
fn tier_every_write_tool_classifies_as_low_or_destructive() {
    for tool in WRITE_TOOLS {
        let tier = tier_of(tool).unwrap_or_else(|| panic!("unclassified tool {tool}"));
        assert_ne!(tier, Tier::Read, "tool {tool} classified as read");
    }
}

#[test]
fn destroy_and_restore_are_destructive() {
    assert_eq!(tier_of("delete_vm"), Some(Tier::Destructive));
    assert_eq!(tier_of("delete_container"), Some(Tier::Destructive));
    assert_eq!(tier_of("restore_backup"), Some(Tier::Destructive));
    assert_eq!(tier_of("rollback_snapshot"), Some(Tier::Destructive));
}

#[test]
fn stop_is_low_because_the_tier_boundary_is_data_loss_not_disruption() {
    assert_eq!(tier_of("stop_vm"), Some(Tier::Low));
}

#[test]
fn no_read_tool_appears_in_the_write_registry() {
    for tool in read_tools() {
        assert!(!WRITE_TOOLS.contains(&tool.name), "read tool {} is in WRITE_TOOLS", tool.name);
    }
}

#[test]
fn an_unknown_tool_is_unclassified_rather_than_defaulting_to_read() {
    assert_eq!(tier_of("wipe_everything"), None);
}

#[test]
fn change_set_inspection_is_a_read() {
    assert_eq!(tier_of("get_proxmox_change_set"), Some(Tier::Read));
}

#[test]
fn a_tier_requires_its_action() {
    assert_eq!(Tier::Read.action(), ProxmoxAction::Read);
    assert_eq!(Tier::Low.action(), ProxmoxAction::Low);
    assert_eq!(Tier::Destructive.action(), ProxmoxAction::Destructive);
}

/// The tools that take a running guest out of service.
#[test]
fn stopping_a_guest_interrupts_service() {
    for tool in ["stop_vm", "shutdown_vm", "reset_vm", "stop_container", "restart_container"] {
        assert!(interrupts_service(tool), "{tool} takes a guest down");
    }
}

#[test]
fn changing_an_allocation_and_stopping_a_task_interrupt_service() {
    assert!(interrupts_service("update_container_resources"));
    assert!(interrupts_service("stop_task"));
}

/// The complement is the point: snapshotting a protected guest before an
/// upgrade must stay possible.
#[test]
fn adding_something_does_not_interrupt_service() {
    for tool in ["start_vm", "start_container", "create_snapshot", "create_backup"] {
        assert!(
            !interrupts_service(tool),
            "{tool} adds rather than interrupts and must stay available on a protected guest"
        );
    }
}

/// Interruption is orthogonal to the tier.
#[test]
fn interruption_is_not_the_tier_boundary() {
    assert_eq!(tier_of("stop_vm"), Some(Tier::Low));
    assert!(interrupts_service("stop_vm"));

    assert_eq!(tier_of("create_snapshot"), Some(Tier::Low));
    assert!(!interrupts_service("create_snapshot"));
}

/// A destructive tool is held back by its tier, not by this list.
#[test]
fn destructive_tools_are_not_listed_as_interrupting() {
    for tool in DESTRUCTIVE_TOOLS {
        assert!(
            !interrupts_service(tool),
            "{tool} is destructive; its tier already refuses a protected guest"
        );
    }
}

/// The delta form is the only unambiguous grow.
#[test]
fn a_positive_delta_grows() {
    for size in ["+8G", "+1024M", "+1T"] {
        assert!(!resize_shrinks(size), "{size} adds capacity");
    }
}

/// An absolute value may be smaller than the current disk.
#[test]
fn an_absolute_size_is_treated_as_shrinking() {
    for size in ["32G", "8G", "1024M"] {
        assert!(resize_shrinks(size), "{size} could be smaller than the current disk");
    }
}

/// A `+` prefix is not by itself a grow.
#[test]
fn a_malformed_delta_is_treated_as_shrinking() {
    for size in ["+banana", "++8G", "+-8G", "+", "+G", "+.", "+8X", "+8.G", "+.5G", "+8..0G"] {
        assert!(resize_shrinks(size), "{size} does not name an amount to add");
    }
}

/// Zero adds nothing, so it is not a grow either.
#[test]
fn a_zero_delta_is_not_a_grow() {
    for size in ["+0", "+0G", "+0.0G", "+00M"] {
        assert!(resize_shrinks(size), "{size} adds no capacity");
    }
}

/// The forms Proxmox actually accepts must still classify as growing.
#[test]
fn well_formed_deltas_grow() {
    for size in ["+8G", "+1024M", "+1T", "+8g", "+0.5G", "+512", "+1.25T"] {
        assert!(!resize_shrinks(size), "{size} adds capacity");
    }
}

/// A negative delta is unambiguously a shrink.
#[test]
fn a_negative_delta_shrinks() {
    assert!(resize_shrinks("-8G"));
}

/// Unclassifiable input errs toward the safer answer.
#[test]
fn a_malformed_size_is_treated_as_shrinking() {
    for size in ["", "+", "  ", "banana", "8"] {
        assert!(
            resize_shrinks(size),
            "{size:?} cannot be shown to grow, so it must not be treated as low tier"
        );
    }
}

/// Whitespace must not change the answer.
#[test]
fn surrounding_whitespace_does_not_flip_the_classification() {
    assert!(!resize_shrinks("  +8G  "));
    assert!(resize_shrinks("  32G  "));
}
