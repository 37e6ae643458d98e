use vstd::prelude::*;
use vstd::string::StringExecFns;

use crate::decimal::{decimal, push_decimal};
use crate::metrics::ValidatorMetrics;

verus! {

/// `solana_validator{identity="..",root_distance="..",vote_distance="..",credits_so_far=".."} rank`
pub open spec fn validator_line(m: ValidatorMetrics) -> Seq<char> {
    "solana_validator{identity=\""@ + m.vote_pubkey@ + "\",root_distance=\""@ + decimal(
        m.root_distance as nat,
    ) + "\",vote_distance=\""@ + decimal(m.vote_distance as nat) + "\",credits_so_far=\""@
        + decimal(m.credits_earned as nat) + "\"} "@ + decimal(m.rank as nat) + "\n"@
}

pub open spec fn validator_lines(ms: Seq<ValidatorMetrics>) -> Seq<char>
    decreases ms.len(),
{
    if ms.len() == 0 {
        Seq::empty()
    } else {
        validator_lines(ms.drop_last()) + validator_line(ms.last())
    }
}

/// The series line of a top-`k` gauge: present only when there are at least `k` metrics.
pub open spec fn top_line(ms: Seq<ValidatorMetrics>, k: int, prefix: Seq<char>) -> Seq<char> {
    if ms.len() >= k {
        prefix + decimal(ms[k - 1].credits_earned as nat) + "\n"@
    } else {
        Seq::empty()
    }
}

pub open spec fn validator_section(ms: Seq<ValidatorMetrics>) -> Seq<char> {
    "# HELP solana_validator Metrics for each validator\n"@
        + "# TYPE solana_validator gauge\n"@ + validator_lines(ms)
}

pub open spec fn top_sections(ms: Seq<ValidatorMetrics>) -> Seq<char> {
    "# HELP solana_validator_top_1 Credits earned by the top 1 validator\n"@
        + "# TYPE solana_validator_top_1 gauge\n"@ + top_line(ms, 1, "solana_validator_top_1 "@)
        + "# HELP solana_validator_top_100 Credits earned by the top 100 validator\n"@
        + "# TYPE solana_validator_top_100 gauge\n"@ + top_line(
        ms,
        100,
        "solana_validator_top_100 "@,
    ) + "# HELP solana_validator_top_200 Credits earned by the top 200 validator\n"@
        + "# TYPE solana_validator_top_200 gauge\n"@ + top_line(
        ms,
        200,
        "solana_validator_top_200 "@,
    )
}

pub open spec fn health_sections(
    active_count: nat,
    rpc_status: nat,
    rpc_duration: Seq<char>,
    rpc_timeout: nat,
) -> Seq<char> {
    "# HELP solana_validator_active Total number of active validators\n"@
        + "# TYPE solana_validator_active gauge\n"@ + "solana_validator_active "@ + decimal(
        active_count,
    ) + "\n"@
        + "# HELP solana_validator_exporter_last_rpc_status RPC response status (1=success, 0=failure)\n"@
        + "# TYPE solana_validator_exporter_last_rpc_status gauge\n"@
        + "solana_validator_exporter_last_rpc_status "@ + decimal(rpc_status) + "\n"@
        + "# HELP solana_validator_exporter_rpc_response_timeout RPC response timeout (1=timeout, 0=no timeout)\n"@
        + "# TYPE solana_validator_exporter_rpc_response_timeout gauge\n"@
        + "solana_validator_exporter_rpc_response_timeout "@ + decimal(rpc_timeout) + "\n"@
        + "# HELP solana_validator_exporter_rpc_duration_seconds RPC response time in seconds\n"@
        + "# TYPE solana_validator_exporter_rpc_duration_seconds gauge\n"@
        + "solana_validator_exporter_rpc_duration_seconds "@ + rpc_duration + "\n"@
}

/// The full exposition text: per-validator series, the top-1/100/200 gauges, the active
/// count, and the status, timeout and duration of the last fetch, in that order.
pub open spec fn exposition(
    ms: Seq<ValidatorMetrics>,
    active_count: nat,
    rpc_status: nat,
    rpc_duration: Seq<char>,
    rpc_timeout: nat,
) -> Seq<char> {
    validator_section(ms) + top_sections(ms) + health_sections(
        active_count,
        rpc_status,
        rpc_duration,
        rpc_timeout,
    )
}

/// A top-`k` gauge has a series line exactly when at least `k` metrics are ranked.
pub proof fn lemma_top_line_present(ms: Seq<ValidatorMetrics>, k: int, prefix: Seq<char>)
    requires
        k >= 1,
    ensures
        (top_line(ms, k, prefix).len() > 0) == (ms.len() >= k),
{
    if ms.len() >= k {
        assert("\n"@.len() > 0) by {
            reveal_strlit("\n");
        }
    }
}

fn push_validator_line(out: &mut String, m: &ValidatorMetrics)
    ensures
        final(out)@ == old(out)@ + validator_line(*m),
{
    out.append("solana_validator{identity=\"");
    out.append(m.vote_pubkey.as_str());
    out.append("\",root_distance=\"");
    push_decimal(out, m.root_distance);
    out.append("\",vote_distance=\"");
    push_decimal(out, m.vote_distance);
    out.append("\",credits_so_far=\"");
    push_decimal(out, m.credits_earned);
    out.append("\"} ");
    push_decimal(out, m.rank as u64);
    out.append("\n");
    assert(final(out)@ =~= old(out)@ + validator_line(*m));
}

fn push_top_line(out: &mut String, ms: &Vec<ValidatorMetrics>, k: usize, prefix: &str)
    requires
        k >= 1,
    ensures
        final(out)@ == old(out)@ + top_line(ms@, k as int, prefix@),
{
    if ms.len() >= k {
        out.append(prefix);
        push_decimal(out, ms[k - 1].credits_earned);
        out.append("\n");
        assert(final(out)@ =~= old(out)@ + top_line(ms@, k as int, prefix@));
    } else {
        assert(old(out)@ + top_line(ms@, k as int, prefix@) =~= old(out)@);
    }
}

fn push_top_sections(out: &mut String, ms: &Vec<ValidatorMetrics>)
    ensures
        final(out)@ == old(out)@ + top_sections(ms@),
{
    out.append("# HELP solana_validator_top_1 Credits earned by the top 1 validator\n");
    out.append("# TYPE solana_validator_top_1 gauge\n");
    push_top_line(out, ms, 1, "solana_validator_top_1 ");
    out.append("# HELP solana_validator_top_100 Credits earned by the top 100 validator\n");
    out.append("# TYPE solana_validator_top_100 gauge\n");
    push_top_line(out, ms, 100, "solana_validator_top_100 ");
    out.append("# HELP solana_validator_top_200 Credits earned by the top 200 validator\n");
    out.append("# TYPE solana_validator_top_200 gauge\n");
    push_top_line(out, ms, 200, "solana_validator_top_200 ");
    assert(final(out)@ =~= old(out)@ + top_sections(ms@));
}

fn push_health_sections(
    out: &mut String,
    active_count: usize,
    rpc_status: u8,
    rpc_duration: &str,
    rpc_timeout: u8,
)
    ensures
        final(out)@ == old(out)@ + health_sections(
            active_count as nat,
            rpc_status as nat,
            rpc_duration@,
            rpc_timeout as nat,
        ),
{
    out.append("# HELP solana_validator_active Total number of active validators\n");
    out.append("# TYPE solana_validator_active gauge\n");
    out.append("solana_validator_active ");
    push_decimal(out, active_count as u64);
    out.append("\n");
    out.append(
        "# HELP solana_validator_exporter_last_rpc_status RPC response status (1=success, 0=failure)\n",
    );
    out.append("# TYPE solana_validator_exporter_last_rpc_status gauge\n");
    out.append("solana_validator_exporter_last_rpc_status ");
    push_decimal(out, rpc_status as u64);
    out.append("\n");
    out.append(
        "# HELP solana_validator_exporter_rpc_response_timeout RPC response timeout (1=timeout, 0=no timeout)\n",
    );
    out.append("# TYPE solana_validator_exporter_rpc_response_timeout gauge\n");
    out.append("solana_validator_exporter_rpc_response_timeout ");
    push_decimal(out, rpc_timeout as u64);
    out.append("\n");
    out.append(
        "# HELP solana_validator_exporter_rpc_duration_seconds RPC response time in seconds\n",
    );
    out.append("# TYPE solana_validator_exporter_rpc_duration_seconds gauge\n");
    out.append("solana_validator_exporter_rpc_duration_seconds ");
    out.append(rpc_duration);
    out.append("\n");
    assert(final(out)@ =~= old(out)@ + health_sections(
        active_count as nat,
        rpc_status as nat,
        rpc_duration@,
        rpc_timeout as nat,
    ));
}

/// Renders the exposition text for ranked metrics and the health of the last fetch.
/// `rpc_duration` is the already rendered duration in seconds.
pub fn export_prometheus_metrics(
    validators: Vec<ValidatorMetrics>,
    active_count: usize,
    rpc_status: u8,
    rpc_duration: &str,
    rpc_timeout: u8,
) -> (r: String)
    ensures
        r@ == exposition(
            validators@,
            active_count as nat,
            rpc_status as nat,
            rpc_duration@,
            rpc_timeout as nat,
        ),
{
    let mut output = String::new();
    output.append("# HELP solana_validator Metrics for each validator\n");
    output.append("# TYPE solana_validator gauge\n");
    let mut i: usize = 0;
    while i < validators.len()
        invariant
            i <= validators@.len(),
            output@ == "# HELP solana_validator Metrics for each validator\n"@
                + "# TYPE solana_validator gauge\n"@ + validator_lines(
                validators@.subrange(0, i as int),
            ),
        decreases validators@.len() - i,
    {
        let ghost before = output@;
        push_validator_line(&mut output, &validators[i]);
        let ghost sub = validators@.subrange(0, i + 1);
        assert(sub.drop_last() =~= validators@.subrange(0, i as int));
        assert(output@ =~= "# HELP solana_validator Metrics for each validator\n"@
            + "# TYPE solana_validator gauge\n"@ + validator_lines(sub));
        i = i + 1;
    }
    assert(validators@.subrange(0, i as int) =~= validators@);
    push_top_sections(&mut output, &validators);
    push_health_sections(&mut output, active_count, rpc_status, rpc_duration, rpc_timeout);
    assert(output@ =~= exposition(
        validators@,
        active_count as nat,
        rpc_status as nat,
        rpc_duration@,
        rpc_timeout as nat,
    ));
    output
}

} // verus!
