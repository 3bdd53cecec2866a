//! What the user reads of a transfer.

use crate::binary64;
use crate::binary64::whole;
use crate::display;
use crate::metrics;
use crate::numerals;
use crate::numerals::Real;
use crate::panels;
use crate::session::{SessionModel, StateModel};
use crate::state::{AppView, SelectedTool, TransferPhase};
use crate::status;
use crate::status::{BodyModel, StatusModel};
use vstd::prelude::*;

verus! {

proof fn lemma_seconds(start: nat, secs: nat)
    requires
        secs < 0x10_0000_0000_0000,
    ensures
        metrics::seconds_since(start + whole(secs), start) == whole(secs),
        status::whole_seconds(start, start + whole(secs)) == secs,
{
    binary64::law_whole_numbers_are_computed_exactly(secs, 0);
    binary64::law_whole_is_exact(secs);
    binary64::law_whole_is_exact(0);
    assert(metrics::seconds_since(start + whole(secs), start) == binary64::sum(
        whole(secs),
        whole(0),
    ));
}

// ── How far it is ──

/// What is shown as done is nothing before bytes move; then what was reported or what
/// the bytes come to, whichever is more.
pub proof fn law_shown_part_is_the_larger(s: SessionModel, done: u64, total: u64)
    requires
        s.metrics.done == Some(done),
        s.metrics.total == Some(total),
        total > 0,
        s.metrics.progress <= binary64::one(),
        s.tool != SelectedTool::Croc,
    ensures
        s.metrics.phase != TransferPhase::Transferring ==> panels::shown_progress(s) == 0,
        s.metrics.phase == TransferPhase::Transferring ==> {
            &&& panels::shown_progress(s) >= s.metrics.progress
            &&& panels::shown_progress(s) >= binary64::fraction(done as nat, total as nat)
            &&& panels::shown_progress(s) == s.metrics.progress || panels::shown_progress(s)
                == binary64::fraction(done as nat, total as nat)
        },
{
}

/// Where croc counts its files, the count is what is shown.
pub proof fn law_counted_files_are_shown(s: SessionModel)
    requires
        s.tool == SelectedTool::Croc,
        s.metrics.file_progress is Some,
        s.metrics.phase == TransferPhase::Transferring,
        s.metrics.progress <= binary64::one(),
    ensures
        panels::shown_progress(s) == s.metrics.progress,
{
}

/// A percentage has one decimal; nothing is `0.0%`, everything `100.0%`.
pub proof fn law_percentages_run_from_nothing_to_a_hundred()
    ensures
        panels::percent_label(0) == seq!['0', '.', '0'] + "%"@,
        panels::percent_label(binary64::one()) == seq!['1', '0', '0', '.', '0'] + "%"@,
{
    binary64::law_everything_is_a_hundred_percent();
    numerals::law_whole_numbers_have_zero_decimals(0);
    numerals::law_whole_numbers_have_zero_decimals(100);
    assert(0 * binary64::one() == 0);
    reveal_with_fuel(numerals::decimal, 4);
    assert(numerals::decimal(100) =~= seq!['1', '0', '0']);
    assert(numerals::decimal(0) =~= seq!['0']);
    assert(numerals::decimal(100) + seq!['.', '0'] =~= seq!['1', '0', '0', '.', '0']);
    assert(numerals::decimal(0) + seq!['.', '0'] =~= seq!['0', '.', '0']);
}

/// The panel of a transfer says what is done of how much, at which rate, and how long
/// the rest takes at that rate: the rate times that time is the rest.
pub proof fn law_panels_add_up(s: SessionModel, progress: nat, done: u64, total: u64, rate: nat, secs: nat)
    requires
        s.metrics.speed == Some(Real::Number { negative: false, units: whole(rate) }),
        0 < rate,
        0 < secs,
        rate + secs < 0x10_0000_0000_0000,
        rate * secs < 0x10_0000_0000_0000,
        total == done + rate * secs,
        total > 0,
    ensures
        ({
            let p = panels::sendme_panel(s, progress, done, total);
            &&& p.transferred == display::file_size(done) + " / "@ + display::file_size(total)
            &&& p.rate == display::file_size(rate as u64) + "/s"@
            &&& p.eta == display::eta(Real::Number { negative: false, units: whole(secs) })
            &&& p.progress == progress
            &&& p.percent == panels::percent_label(progress)
        }),
        s.metrics.last_frame_at is None ==> ({
            let p = panels::croc_panel(s, progress, done, total);
            &&& p.transferred == display::file_size(done) + " / "@ + display::file_size(total)
            &&& p.rate == display::file_size(rate as u64) + "/s"@
            &&& p.eta == display::eta(Real::Number { negative: false, units: whole(secs) })
            &&& p.progress == progress
            &&& p.percent == panels::percent_label(progress)
        }),
{
    assert(rate * secs == secs * rate) by (nonlinear_arith);
    assert(rate <= rate * secs) by (nonlinear_arith)
        requires
            secs >= 1,
    ;
    binary64::law_whole_numbers_are_computed_exactly(secs, rate);
    binary64::law_whole_numbers_are_computed_exactly(rate, 0);
    binary64::lemma_whole_positive(rate);
    assert((total - done) as nat == secs * rate);
}

/// Where everything is done no time is left; where nothing is known of the total or of
/// the speed, nothing is said of it.
pub proof fn law_nothing_left_takes_no_time(s: SessionModel, progress: nat, done: u64, total: u64)
    ensures
        0 < total <= done ==> panels::sendme_panel(s, progress, done, total).eta == "0s"@,
        total == 0 ==> panels::sendme_panel(s, progress, done, total).eta == "--"@
            && panels::sendme_panel(s, progress, done, total).transferred == display::file_size(
            done,
        ),
        s.metrics.speed is None ==> panels::sendme_panel(s, progress, done, total).rate == "--"@,
        s.metrics.speed is None && total > done ==> panels::sendme_panel(
            s,
            progress,
            done,
            total,
        ).eta == "--"@,
{
}

/// croc's panel names the file of the bar, and which of how many it is. When no bar has
/// come for more than four seconds, it says that files are being verified, and nothing
/// of rates.
pub proof fn law_croc_panels_name_the_file(
    s: SessionModel,
    progress: nat,
    done: u64,
    total: u64,
    file: Seq<char>,
    k: u64,
    n: u64,
    last: nat,
    secs: nat,
)
    requires
        s.metrics.bar_file == Some(file),
        file.len() > 0,
        s.metrics.file_progress == Some((k, n)),
        n > 0,
        s.metrics.last_frame_at == Some(last),
        s.now == last + whole(secs),
        secs < 0x10_0000_0000_0000,
        s.view != AppView::Home,
    ensures
        ({
            let p = panels::croc_panel(s, progress, done, total);
            &&& p.detail == Some(
                numerals::decimal(k as nat) + "/"@ + numerals::decimal(n as nat) + " "@ + file,
            )
            &&& secs <= 4 && s.view == AppView::Send ==> p.title == "Sending"@ + " "@ + file
            &&& secs <= 4 && s.view == AppView::Receive ==> p.title == "Receiving"@ + " "@ + file
            &&& secs > 4 ==> p.title == "Finalizing\u{2026} (verifying files)"@ && p.rate == "--"@
                && p.eta == "--"@
        }),
{
    lemma_seconds(last, secs);
    binary64::law_whole_is_exact(4);
    if secs < 0x10_0000_0000_0000 {
        binary64::law_whole_is_exact(secs);
        assert(secs > 4 ==> secs * binary64::one() > 4 * binary64::one()) by (nonlinear_arith)
            requires
                binary64::one() > 0,
        ;
        assert(secs <= 4 ==> secs * binary64::one() <= 4 * binary64::one()) by (nonlinear_arith);
    }
}

/// sendme's panel says which way the data goes, and how many files there are.
pub proof fn law_sendme_panels_count_the_files(s: SessionModel, progress: nat, done: u64, total: u64)
    ensures
        ({
            let p = panels::sendme_panel(s, progress, done, total);
            &&& s.view == AppView::Send ==> p.title == "Sending"@ + "\u{2026}"@
            &&& s.view == AppView::Receive ==> p.title == "Receiving"@ + "\u{2026}"@
            &&& s.metrics.total_items matches Some(n) ==> p.detail == Some(
                numerals::decimal(n as nat) + " files"@,
            )
            &&& s.metrics.total_items is None ==> p.detail is None
        }),
{
}

/// The average speed is the bytes that were done over the time in which they moved:
/// from when they began to move, where that is known.
pub proof fn law_average_speed_is_bytes_over_time(s: SessionModel, start: nat, rate: nat, secs: nat)
    requires
        s.metrics.payload_start == Some(start) || (s.metrics.payload_start is None && s.start_time
            == Some(start)),
        0 < secs,
        0 < rate,
        rate + secs < 0x10_0000_0000_0000,
        rate * secs < 0x10_0000_0000_0000,
        s.end_time == Some(start + whole(secs)),
        s.metrics.done == Some((rate * secs) as u64),
    ensures
        panels::average_speed(s) == Some(whole(rate)),
        status::final_speed(s) == Some(rate as u64),
        status::duration(s) == Some(secs as u64),
{
    lemma_seconds(start, secs);
    binary64::lemma_whole_positive(secs);
    binary64::law_whole_numbers_are_computed_exactly(rate, secs);
    assert(rate * secs > 0) by (nonlinear_arith)
        requires
            rate > 0,
            secs > 0,
    ;
    binary64::law_whole_numbers_are_computed_exactly(rate, 0);
}

// ── The card ──

/// The card shows what the transfer is: nothing of none, that it runs, that it is over,
/// or why it failed, in the words that it failed with.
pub proof fn law_cards_show_the_state(s: SessionModel)
    ensures
        s.state is Idle <==> status::status(s) is Idle,
        s.state is Running <==> status::status(s) is Running,
        s.state is Completed <==> status::status(s) is Completed,
        s.state matches StateModel::Failed(e) ==> (status::status(s) matches StatusModel::Failed {
            message,
            ..
        } && message == e),
{
}

/// While a transfer runs, the card says in its own words what happens now.
pub proof fn law_cards_say_what_happens(s: SessionModel)
    requires
        s.state is Running,
    ensures
        status::status(s) matches StatusModel::Running { text, body, .. } && ({
            let broadcast = s.tool == SelectedTool::Sendme && s.view == AppView::Send
                && !s.serve.one_shot;
            &&& s.metrics.phase == TransferPhase::Preparing ==> text == "Preparing\u{2026}"@
            &&& s.metrics.phase == TransferPhase::WaitingForReceiver && !broadcast ==> text
                == "Waiting for receiver..."@
            &&& s.metrics.phase == TransferPhase::WaitingForReceiver && broadcast ==> text
                == "Broadcast mode: waiting for receivers..."@
            &&& s.metrics.phase == TransferPhase::Transferring && s.view == AppView::Send
                && !broadcast ==> text == "Uploading on sender..."@
            &&& s.metrics.phase == TransferPhase::Transferring && broadcast ==> text
                == "Broadcast mode active..."@
            &&& s.metrics.phase == TransferPhase::Transferring && s.view == AppView::Receive
                && panels::shown_progress(s) == 0 ==> text == "Downloading\u{2026}"@
            &&& s.metrics.phase == TransferPhase::Transferring && s.view == AppView::Receive
                && panels::shown_progress(s) == binary64::one() ==> text
                == "Building and verifying content\u{2026}"@
            &&& s.metrics.phase == TransferPhase::EazySharingTicket ==> text
                == "Sharing ticket via Croc\u{2026}"@
            &&& s.metrics.phase == TransferPhase::EazyWaitingForPeer ==> text
                == "Waiting for peer (Sendme)\u{2026}"@
            &&& broadcast ==> body is Broadcast
            &&& !broadcast && s.metrics.phase == TransferPhase::Transferring ==> body is Panel
            &&& !broadcast && s.metrics.phase != TransferPhase::Transferring ==> body is Pulse
        }),
{
    lemma_nearly_one();
}

proof fn lemma_nearly_one()
    ensures
        0 < status::nearly_one() <= binary64::one(),
{
    vstd::arithmetic::power2::lemma2_to64();
    vstd::arithmetic::power2::lemma2_to64_rest();
    vstd::arithmetic::power2::lemma_pow2_pos(1074);
    vstd::arithmetic::power2::lemma_pow2_strictly_increases(1074, 2098);
    binary64::lemma_nearest_grows(999 * binary64::one(), 1000 * binary64::one(), 1000, 24);
    binary64::law_nearest_keeps_what_fits(1, 1074, 1000, 24);
    assert(1 * vstd::arithmetic::power2::pow2(1074) * 1000 == 1000 * binary64::one())
        by (nonlinear_arith)
        requires
            binary64::one() == vstd::arithmetic::power2::pow2(1074),
    ;
    lemma_thousand();
    binary64::lemma_nearest_positive(999 * binary64::one(), 1000, 24);
}

proof fn lemma_thousand()
    ensures
        999 * binary64::one() >= 1000,
{
    vstd::arithmetic::power2::lemma2_to64();
    vstd::arithmetic::power2::lemma_pow2_strictly_increases(10, 1074);
}

/// The card of a broadcast counts its transfers, and says what is served.
pub proof fn law_broadcasts_count_their_transfers(s: SessionModel, total: u64)
    requires
        s.state is Running,
        s.tool == SelectedTool::Sendme,
        s.view == AppView::Send,
        !s.serve.one_shot,
        s.metrics.total == Some(total),
        total > 0,
    ensures
        status::status(s) matches StatusModel::Running { body, .. } && (body matches BodyModel::Broadcast {
            line,
            count,
            payload,
        } && {
            &&& payload == Some("Payload: "@ + display::file_size(total))
            &&& s.serve.active_transfers == 1 ==> count == numerals::decimal(1)
                + " transfer in progress"@
            &&& s.serve.active_transfers != 1 ==> count == numerals::decimal(
                s.serve.active_transfers as nat,
            ) + " transfers in progress"@
            &&& s.metrics.phase == TransferPhase::Preparing ==> line
                == "Preparing broadcast session..."@
            &&& s.metrics.phase == TransferPhase::Transferring && s.serve.active_transfers > 0
                ==> line == "Broadcast mode active"@
            &&& s.metrics.phase == TransferPhase::WaitingForReceiver ==> line
                == "Broadcast mode waiting for receivers..."@
        }),
{
}

/// The clock of a transfer shows the minutes and seconds since it began; when it is
/// over, those that it took.
pub proof fn law_clocks_show_the_time_that_passed(s: SessionModel, start: nat, m: nat, secs: nat)
    requires
        s.start_time == Some(start),
        secs < 60,
        60 * m + secs < 0x10_0000_0000_0000,
    ensures
        s.state is Running && s.now == start + whole(60 * m + secs) ==> (status::status(
            s,
        ) matches StatusModel::Running { clock, .. } && clock == Some(
            numerals::decimal(m) + ":"@ + numerals::two_digits(secs),
        )),
        s.state is Completed && s.metrics.payload_start is None && s.end_time == Some(
            start + whole(60 * m + secs),
        ) ==> (status::status(s) matches StatusModel::Completed { clock, elapsed, .. } && clock
            == Some(numerals::decimal(m) + ":"@ + numerals::two_digits(secs)) && elapsed == Some(
            "Elapsed: "@ + (numerals::decimal(m) + ":"@ + numerals::two_digits(secs)),
        )),
{
    lemma_seconds(start, 60 * m + secs);
}

/// A card of a transfer that is over says how much of how much was moved, which way, and
/// the part that this is: all of it where all was moved, none where none was.
pub proof fn law_finished_cards_sum_up(s: SessionModel, done: u64, total: u64)
    requires
        s.state is Completed,
        s.metrics.done == Some(done),
        s.metrics.total == Some(total),
        0 < total < 0x10_0000_0000_0000,
    ensures
        status::status(s) matches StatusModel::Completed { data, progress, .. } && {
            &&& s.view == AppView::Send ==> data == Some(
                "Uploaded (sender): "@ + status::right_aligned(display::file_size(done), 9)
                    + " / "@ + status::right_aligned(display::file_size(total), 9),
            )
            &&& s.view == AppView::Receive ==> data == Some(
                "Downloaded: "@ + status::right_aligned(display::file_size(done), 9) + " / "@
                    + status::right_aligned(display::file_size(total), 9),
            )
            &&& s.view == AppView::Receive && done == total ==> progress == Some(
                "Download progress: "@ + status::right_aligned(
                    seq!['1', '0', '0', '.', '0'],
                    5,
                ) + "%"@,
            )
            &&& s.view == AppView::Send && done == total ==> progress == Some(
                "Upload progress (sender): "@ + status::right_aligned(
                    seq!['1', '0', '0', '.', '0'],
                    5,
                ) + "%"@,
            )
        },
        status::percent_done(0, total) == 0,
        status::percent_done(total, total) == whole(100),
{
    let t = total as nat;
    binary64::law_whole_numbers_are_computed_exactly(1, t);
    binary64::law_whole_numbers_are_computed_exactly(1, 100);
    binary64::law_whole_is_exact(1);
    binary64::law_whole_is_exact(100);
    binary64::law_whole_is_exact(0);
    assert(1 * t == t);
    binary64::lemma_whole_positive(t);
    binary64::lemma_zero(whole(t), whole(100));
    numerals::law_whole_numbers_have_zero_decimals(100);
    reveal_with_fuel(numerals::decimal, 4);
    assert(numerals::decimal(100) =~= seq!['1', '0', '0']);
    assert(numerals::decimal(100) + seq!['.', '0'] =~= seq!['1', '0', '0', '.', '0']);
    binary64::lemma_whole_positive(100);
}

/// More that is done is never a smaller percentage.
pub proof fn law_percentages_grow(a: u64, b: u64, total: u64)
    requires
        a <= b,
        total > 0,
    ensures
        status::percent_done(a, total) <= status::percent_done(b, total),
{
    binary64::lemma_whole_positive(total as nat);
    binary64::lemma_whole_grows(a as nat, b as nat);
    binary64::lemma_quotient_grows(whole(a as nat), whole(b as nat), whole(total as nat));
    binary64::lemma_product_grows(
        binary64::quotient(whole(a as nat), whole(total as nat)),
        binary64::quotient(whole(b as nat), whole(total as nat)),
        whole(100),
    );
}

/// A text that is aligned to the right ends with what it was, at its width.
pub proof fn law_aligned_texts_end_alike(s: Seq<char>, width: nat)
    ensures
        s.is_suffix_of(status::right_aligned(s, width)),
        s.len() <= width ==> status::right_aligned(s, width).len() == width,
        forall|i: int|
            0 <= i < status::right_aligned(s, width).len() - s.len() ==> #[trigger] status::right_aligned(
                s,
                width,
            )[i] == ' ',
{
    let r = status::right_aligned(s, width);
    assert(r.skip(r.len() - s.len()) =~= s);
}

// ── Codes ──

/// A sender sees the code or ticket to hand on, with the word for it: croc's from when it
/// waits on. Whoever has typed a ticket is not shown it again.
pub proof fn law_senders_see_their_code(s: SessionModel)
    requires
        s.code is Some,
    ensures
        s.tool == SelectedTool::Croc && s.view == AppView::Send ==> (status::shows_code(s)
            <==> s.metrics.phase != TransferPhase::Preparing),
        s.tool == SelectedTool::Sendme && s.view == AppView::Send ==> status::shows_code(s),
        s.tool == SelectedTool::EazySendme && s.view == AppView::Send ==> status::shows_code(s),
        status::code_label(SelectedTool::Croc) == "Share this code:"@,
        status::code_label(SelectedTool::Sendme) == "Share this ticket:"@,
        status::code_label(SelectedTool::EazySendme) == "EazySendme ticket:"@,
{
}

/// The way that croc's data takes is shown as it was named.
pub proof fn law_named_routes_are_shown(s: SessionModel)
    requires
        s.tool == SelectedTool::Croc,
    ensures
        s.state is Running ==> (status::status(s) matches StatusModel::Running { route, .. } && route
            == s.route),
        s.state is Completed ==> (status::status(s) matches StatusModel::Completed { route, .. }
            && route == s.route),
{
}

/// The spinner takes three steps a second, through four frames.
pub proof fn law_spinner_steps_three_times_a_second(secs: nat)
    requires
        secs < 0x1_0000_0000,
    ensures
        status::spinner_frame(whole(secs)) == (3 * secs) % 4,
{
    binary64::law_whole_numbers_are_computed_exactly(secs, 3);
    binary64::law_whole_numbers_are_computed_exactly(secs * 3, 0);
}

/// The bar at the bottom has a word for every phase before the payload.
pub proof fn law_phases_have_words(s: SessionModel)
    ensures
        s.metrics.phase == TransferPhase::Preparing ==> status::phase_word(s) == Some(
            "preparing"@,
        ),
        s.metrics.phase == TransferPhase::WaitingForReceiver ==> status::phase_word(s) == Some(
            "waiting"@,
        ),
        s.metrics.phase == TransferPhase::EazySharingTicket ==> status::phase_word(s) == Some(
            "sharing ticket"@,
        ),
        s.metrics.phase == TransferPhase::EazyWaitingForPeer ==> status::phase_word(s) == Some(
            "waiting for peer"@,
        ),
        s.metrics.phase == TransferPhase::Transferring && panels::shown_progress(s) == 0
            ==> status::phase_word(s) is None,
        s.metrics.phase == TransferPhase::Transferring && panels::shown_progress(s)
            == binary64::one() ==> status::phase_word(s) == Some(numerals::decimal(100) + "%"@),
{
    vstd::arithmetic::power2::lemma2_to64();
    vstd::arithmetic::power2::lemma2_to64_rest();
    vstd::arithmetic::power2::lemma_pow2_pos(1074);
    binary64::law_everything_is_a_hundred_percent();
    let o = binary64::one();
    vstd::arithmetic::div_mod::lemma_div_by_multiple(100, o as int);
    vstd::arithmetic::div_mod::lemma_mod_multiples_basic(100, o as int);
    assert(100 * o * 1 == 100 * o);
    assert(binary64::scaled_round(100 * o, 1) == 100);
    lemma_hundredth();
}

proof fn lemma_hundredth()
    ensures
        binary64::nearest_single(binary64::one(), 100) < binary64::one(),
{
    vstd::arithmetic::power2::lemma2_to64();
    vstd::arithmetic::power2::lemma2_to64_rest();
    vstd::arithmetic::power2::lemma_pow2_pos(1073);
    vstd::arithmetic::power2::lemma_pow2_unfold(1074);
    vstd::arithmetic::power2::lemma_pow2_strictly_increases(1073, 2098);
    let h = vstd::arithmetic::power2::pow2(1073);
    binary64::lemma_nearest_grows(binary64::one(), h * 100, 100, 24);
    binary64::law_nearest_keeps_what_fits(1, 1073, 100, 24);
    assert(1 * h * 100 == h * 100);
}

/// A code is shown, unless it is the ticket that a receiver entered, or croc has not made
/// it ready for sharing.
pub proof fn law_codes_are_shown_when_they_count(s: SessionModel)
    ensures
        s.code is None ==> !status::shows_code(s),
        s.code is Some && s.tool == SelectedTool::Sendme ==> (status::shows_code(s) <==> s.view
            != AppView::Receive),
        s.code is Some && s.tool == SelectedTool::EazySendme ==> status::shows_code(s),
        s.code is Some && s.tool == SelectedTool::Croc && s.view != AppView::Send
            ==> status::shows_code(s),
{
}

/// Before the payload moves, the card says what is waited for and how much there is, on
/// nine places.
pub proof fn law_waiting_cards_name_the_total(s: SessionModel, n: nat)
    requires
        s.state is Running,
        !(s.tool == SelectedTool::Sendme && s.view == AppView::Send && !s.serve.one_shot),
        s.metrics.phase != TransferPhase::Transferring,
    ensures
        ({
            let label = match s.metrics.phase {
                TransferPhase::EazySharingTicket => "Sharing ticket via Croc..."@,
                TransferPhase::EazyWaitingForPeer => "Waiting for peer (Sendme)..."@,
                TransferPhase::WaitingForReceiver => "Waiting for receiver..."@,
                _ => "Preparing ..."@,
            };
            status::body(s) matches BodyModel::Pulse { label: l, total } && l == label && (
            metrics::or_zero(s.metrics.total) == 0 ==> total is None)
        }),
        1 <= n < 1024 && s.metrics.total == Some((n * 1048576) as u64) ==> ({
            let size = numerals::decimal(n) + ".0 MB"@;
            status::body(s) matches BodyModel::Pulse { total, .. } && total is Some
                && "Total: "@.is_prefix_of(total->0) && size.is_suffix_of(total->0)
                && total->0.len() == "Total: "@.len() + 9
        }),
{
    if 1 <= n < 1024 && s.metrics.total == Some((n * 1048576) as u64) {
        display::law_sizes_are_shown_in_their_unit(n);
        reveal_strlit(".0 MB");
        reveal_strlit(" MB");
        let size = numerals::decimal(n) + ".0 MB"@;
        assert(numerals::decimal(n) + seq!['.', '0'] + " MB"@ =~= size);
        reveal_with_fuel(numerals::decimal, 5);
        assert(numerals::decimal(n).len() <= 4);
        let r = status::right_aligned(size, 9);
        assert(r.len() == 9);
        let t = "Total: "@ + r;
        assert(t.subrange(0, "Total: "@.len() as int) =~= "Total: "@);
        assert(t.skip(t.len() - size.len()) =~= size);
        assert((n * 1048576) as u64 > 0);
    }
}

/// Where croc's bytes are not known but its counter of files is, the part that is shown
/// stands for them: all of them where it is everything.
pub proof fn law_counted_files_stand_for_bytes(s: SessionModel, total: u64)
    requires
        s.metrics.done is None,
        s.metrics.total == Some(total),
        0 < total < 0x10_0000_0000_0000,
    ensures
        s.tool == SelectedTool::Croc && s.metrics.file_progress is Some
            && panels::shown_progress(s) == binary64::one() ==> status::shown_done(s) == total,
        s.tool == SelectedTool::Croc && s.metrics.file_progress is None ==> status::shown_done(s)
            == 0,
        s.tool != SelectedTool::Croc ==> status::shown_done(s) == 0,
{
    binary64::law_whole_numbers_are_computed_exactly(1, total as nat);
    binary64::law_whole_is_exact(1);
    binary64::law_whole_numbers_are_computed_exactly(total as nat, 0);
    assert(1 * (total as nat) == total as nat);
    assert(whole(1) == binary64::one());
}

} // verus!
