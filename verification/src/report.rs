//! How a failure is told to a client.
use vstd::prelude::*;

use crate::digits;
use crate::text;

verus! {

/// The lines of a report: each message of a chain of errors, with its number in front.
pub open spec fn report_lines(messages: Seq<Seq<char>>) -> Seq<Seq<char>> {
    messages.map(|i: int, message: Seq<char>| digits::decimal(i as nat) + ": "@ + message)
}

/// The report on a chain of errors, whose messages are given from the outermost inwards.
pub fn report_text(messages: &Vec<String>) -> (r: String)
    ensures
        r@ == text::joined(report_lines(messages.deep_view()), "\n"@),
{
    let ghost all = report_lines(messages.deep_view());
    let mut lines: Vec<String> = Vec::new();
    let mut i: usize = 0;
    assert(lines.deep_view() =~= all.take(0));
    while i < messages.len()
        invariant
            i <= messages.len(),
            all == report_lines(messages.deep_view()),
            lines.deep_view() == all.take(i as int),
        decreases messages.len() - i,
    {
        let mut line = digits::decimal_text(i);
        line.append(": ");
        line.append(messages[i].as_str());
        assert(line@ == all[i as int]);
        let ghost so_far = lines.deep_view();
        lines.push(line);
        assert(lines.deep_view() =~= so_far.push(line@));
        assert(all.take(i + 1) =~= all.take(i as int).push(all[i as int]));
        i = i + 1;
    }
    assert(all.take(i as int) =~= all);
    text::join(&lines, "\n")
}


/// A report goes on with a line of its own for each further message, which has its number in front.
pub proof fn law_report_goes_on(messages: Seq<Seq<char>>, message: Seq<char>)
    ensures
        ({
            let report = text::joined(report_lines(messages), "\n"@);
            let longer = text::joined(report_lines(messages.push(message)), "\n"@);
            let line = digits::decimal(messages.len()) + ": "@ + message;
            &&& messages.len() == 0 ==> report.len() == 0 && longer == line
            &&& messages.len() > 0 ==> longer == report + "\n"@ + line
        }),
{
    let lines = report_lines(messages);
    let more = report_lines(messages.push(message));
    assert(more.drop_last() =~= lines);
}

} // verus!
