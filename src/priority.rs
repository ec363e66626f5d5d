use vstd::prelude::*;

verus! {

/// MoQT priority: 0 is the most urgent, 255 the least.
pub type MoqtPriority = u8;

/// Order in which the groups of a track are delivered.
#[allow(non_camel_case_types)]
#[derive(Clone, Copy, Debug, PartialEq, Eq, Structural)]
pub enum MoqtDeliveryOrder {
    kAscending,
    kDescending,
}

/// Scheduler key of the control stream: above any key of an object stream.
#[allow(non_upper_case_globals)]
pub const kMoqtControlStreamSendOrder: i64 = 0x7fff_ffff_ffff_ffff;

/// The part of the key that the two priorities make: lower priority values
/// give larger keys, the subscriber's above the publisher's.
pub open spec fn track_key(subscriber_priority: u8, publisher_priority: u8) -> int {
    (255 - subscriber_priority) * 0x40_0000_0000_0000 + (255 - publisher_priority)
        * 0x4000_0000_0000
}

/// The group id reduced modulo `modulus`, oriented so that the group that the
/// delivery order serves first gets the larger value.
pub open spec fn group_key(group_id: u64, modulus: int, order: MoqtDeliveryOrder) -> int {
    let g = group_id as int % modulus;
    match order {
        MoqtDeliveryOrder::kAscending => modulus - 1 - g,
        MoqtDeliveryOrder::kDescending => g,
    }
}

/// The scheduler key of a stream.
pub open spec fn send_order_spec(
    subscriber_priority: u8,
    publisher_priority: u8,
    group_id: u64,
    subgroup_id: Option<u64>,
    order: MoqtDeliveryOrder,
) -> int {
    match subgroup_id {
        None => track_key(subscriber_priority, publisher_priority) + group_key(group_id, 0x4000_0000_0000, order),
        Some(s) => track_key(subscriber_priority, publisher_priority) + group_key(group_id, 0x400_0000, order)
            * 0x10_0000 + (0xf_ffff - s % 0x10_0000),
    }
}

/// Scheduler key of a stream of a track: a larger key is sent first. From
/// the most significant part down: the subscriber priority, the publisher
/// priority, the group (in the subscription's order), and, for a stream per
/// subgroup, the subgroup id, lowest first.
pub fn send_order_for_stream(
    subscriber_priority: MoqtPriority,
    publisher_priority: MoqtPriority,
    group_id: u64,
    subgroup_id: Option<u64>,
    delivery_order: MoqtDeliveryOrder,
) -> (r: i64)
    ensures
        r as int == send_order_spec(
            subscriber_priority,
            publisher_priority,
            group_id,
            subgroup_id,
            delivery_order,
        ),
        0 <= r < 0x4000_0000_0000_0000,
{
    let track: u64 = (255 - subscriber_priority) as u64 * 0x40_0000_0000_0000 + (255
        - publisher_priority) as u64 * 0x4000_0000_0000;
    match subgroup_id {
        None => {
            let g = group_id % 0x4000_0000_0000;
            let gk = match delivery_order {
                MoqtDeliveryOrder::kAscending => 0x3fff_ffff_ffff - g,
                MoqtDeliveryOrder::kDescending => g,
            };
            (track + gk) as i64
        },
        Some(s) => {
            let g = group_id % 0x400_0000;
            let gk = match delivery_order {
                MoqtDeliveryOrder::kAscending => 0x3ff_ffff - g,
                MoqtDeliveryOrder::kDescending => g,
            };
            let sk = 0xf_ffff - s % 0x10_0000;
            (track + gk * 0x10_0000 + sk) as i64
        },
    }
}

/// Recomputes a key after the subscriber changed its priority: only the
/// subscriber-priority part of the key changes.
pub fn update_send_order_for_subscriber_priority(
    send_order: i64,
    subscriber_priority: MoqtPriority,
) -> (r: i64)
    requires
        0 <= send_order < 0x4000_0000_0000_0000,
    ensures
        r as int == (255 - subscriber_priority) * 0x40_0000_0000_0000 + send_order
            % 0x40_0000_0000_0000,
        forall|old_priority: u8, publisher_priority: u8, group_id: u64, subgroup_id: Option<u64>,
            order: MoqtDeliveryOrder|
            send_order == #[trigger] send_order_spec(
                old_priority,
                publisher_priority,
                group_id,
                subgroup_id,
                order,
            ) ==> r == send_order_spec(
                subscriber_priority,
                publisher_priority,
                group_id,
                subgroup_id,
                order,
            ),
{
    proof {
        assert forall|old_priority: u8, publisher_priority: u8, group_id: u64, subgroup_id: Option<
            u64>, order: MoqtDeliveryOrder|
            send_order == #[trigger] send_order_spec(
                old_priority,
                publisher_priority,
                group_id,
                subgroup_id,
                order,
            ) implies (255 - subscriber_priority) * 0x40_0000_0000_0000 + send_order
            % 0x40_0000_0000_0000 == send_order_spec(
            subscriber_priority,
            publisher_priority,
            group_id,
            subgroup_id,
            order,
        ) by {
            let low = send_order_spec(
                255,
                publisher_priority,
                group_id,
                subgroup_id,
                order,
            );
            assert(0 <= low < 0x40_0000_0000_0000);
            assert(send_order == (255 - old_priority) * 0x40_0000_0000_0000 + low);
            vstd::arithmetic::div_mod::lemma_fundamental_div_mod_converse(
                send_order as int,
                0x40_0000_0000_0000,
                (255 - old_priority) as int,
                low,
            );
        }
    }
    let low = (send_order as u64) % 0x40_0000_0000_0000;
    ((255 - subscriber_priority) as u64 * 0x40_0000_0000_0000 + low) as i64
}

} // verus!
