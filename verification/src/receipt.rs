//! The printed form of an order, as text: which lines it has, what each line
//! says, and how the lines are read back.

use vstd::prelude::*;
use crate::decimal::{
    decimal_text, decimal_value, is_decimal, lemma_decimal_round_trip,
    lemma_decimal_text_is_decimal, lemma_trailing_digits_after, trailing_digits,
};
use crate::price::price_text;

verus! {

/// What one item line says: a name, how many, and what they cost together.
pub struct Entry {
    pub name: Seq<char>,
    pub quantity: nat,
    pub line_total: nat,
}

/// What a printed order says: its item lines in order, and the total.
pub struct Receipt {
    pub entries: Seq<Entry>,
    pub total: nat,
}

/// The first line of every printed order.
pub open spec fn header() -> Seq<char> {
    "=== 주문 내역 ==="@
}

/// The line between the item lines and the total.
pub open spec fn separator() -> Seq<char> {
    "===================="@
}

/// The item line of an entry: name, ` x `, quantity, ` - `, line total.
pub open spec fn entry_text(e: Entry) -> Seq<char> {
    e.name + " x "@ + decimal_text(e.quantity) + " - "@ + price_text(e.line_total)
}

/// The last line of a printed order.
pub open spec fn total_text(total: nat) -> Seq<char> {
    "Total: "@ + price_text(total)
}

/// The lines of a printed order: the header, one line for each entry in
/// order, the separator, the total.
pub open spec fn receipt_lines(r: Receipt) -> Seq<Seq<char>> {
    seq![header()] + r.entries.map_values(|e: Entry| entry_text(e)) + seq![
        separator(),
        total_text(r.total),
    ]
}

/// Lines put together as one text, a line feed between each two.
pub open spec fn join_lines(lines: Seq<Seq<char>>) -> Seq<char>
    decreases lines.len(),
{
    if lines.len() == 0 {
        Seq::empty()
    } else if lines.len() == 1 {
        lines[0]
    } else {
        join_lines(lines.drop_last()) + seq!['\n'] + lines.last()
    }
}

/// The text of a printed order.
pub open spec fn receipt_text(r: Receipt) -> Seq<char> {
    join_lines(receipt_lines(r))
}

/// Whether `s` holds no line feed.
pub open spec fn no_line_feed(s: Seq<char>) -> bool {
    forall|i: int| 0 <= i < s.len() ==> #[trigger] s[i] != '\n'
}

/// A text cut into its lines at each line feed. A text without a line feed
/// is one line; a text that ends in a line feed has an empty last line.
pub open spec fn split_lines(text: Seq<char>) -> Seq<Seq<char>>
    decreases text.len(),
{
    if text.len() == 0 {
        seq![Seq::empty()]
    } else {
        let before = split_lines(text.drop_last());
        if text.last() == '\n' {
            before.push(Seq::empty())
        } else {
            before.drop_last().push(before.last().push(text.last()))
        }
    }
}

/// Whether `s` ends with `suffix`.
pub open spec fn ends_with(s: Seq<char>, suffix: Seq<char>) -> bool {
    s.len() >= suffix.len() && s.skip(s.len() - suffix.len()) == suffix
}

/// An item line read back: the digits at its end are the line total, before
/// them stands ` - ` and the won sign, before that the digits of the
/// quantity, before those ` x `, and what is left is the name.
pub open spec fn read_entry(line: Seq<char>) -> Option<Entry> {
    let t = trailing_digits(line);
    let head = line.take(line.len() - t);
    let mark = " - "@ + "₩"@;
    let left = head.take(head.len() - mark.len());
    let q = trailing_digits(left);
    let front = left.take(left.len() - q);
    if t > 0 && ends_with(head, mark) && q > 0 && ends_with(front, " x "@) {
        Some(
            Entry {
                name: front.take(front.len() - " x "@.len()),
                quantity: decimal_value(left.skip(left.len() - q)),
                line_total: decimal_value(line.skip(line.len() - t)),
            },
        )
    } else {
        None
    }
}

/// The total line read back: `Total: `, the won sign, then the digits of
/// the total.
pub open spec fn read_total(line: Seq<char>) -> Option<nat> {
    let lead = "Total: "@ + "₩"@;
    if line.len() > lead.len() && line.take(lead.len() as int) == lead && is_decimal(
        line.skip(lead.len() as int),
    ) {
        Some(decimal_value(line.skip(lead.len() as int)))
    } else {
        None
    }
}

/// A printed order read back line by line: the first line is the header,
/// the last but one the separator, the last the total, and each line
/// between header and separator an item line.
pub open spec fn read_receipt(text: Seq<char>) -> Option<Receipt> {
    let lines = split_lines(text);
    let body = lines.subrange(1, lines.len() - 2);
    if lines.len() >= 3 && lines[0] == header() && lines[lines.len() - 2] == separator()
        && read_total(lines.last()) is Some && (forall|i: int|
        0 <= i < body.len() ==> read_entry(#[trigger] body[i]) is Some) {
        Some(
            Receipt {
                entries: body.map_values(|line: Seq<char>| read_entry(line).unwrap()),
                total: read_total(lines.last()).unwrap(),
            },
        )
    } else {
        None
    }
}

/// Every text has at least one line.
pub proof fn lemma_split_lines_nonempty(text: Seq<char>)
    ensures
        split_lines(text).len() >= 1,
    decreases text.len(),
{
    if text.len() > 0 {
        lemma_split_lines_nonempty(text.drop_last());
    }
}

/// Text without a line feed, put behind `text`, lengthens the last line of
/// `text` and leaves the lines before it as they are.
pub proof fn lemma_split_lines_extend(text: Seq<char>, more: Seq<char>)
    requires
        no_line_feed(more),
    ensures
        split_lines(text + more) == split_lines(text).drop_last().push(
            split_lines(text).last() + more,
        ),
    decreases more.len(),
{
    lemma_split_lines_nonempty(text);
    let lines = split_lines(text);
    if more.len() == 0 {
        assert(text + more =~= text);
        assert(lines.drop_last().push(lines.last() + more) =~= lines);
    } else {
        let shorter = more.drop_last();
        lemma_split_lines_extend(text, shorter);
        assert((text + more).drop_last() =~= text + shorter);
        assert((lines.last() + shorter).push(more.last()) =~= lines.last() + more);
    }
}

/// A line feed and then text without a line feed make one more line.
pub proof fn lemma_split_lines_next(text: Seq<char>, line: Seq<char>)
    requires
        no_line_feed(line),
    ensures
        split_lines(text + seq!['\n'] + line) == split_lines(text).push(line),
{
    let fed = text + seq!['\n'];
    assert(fed.drop_last() =~= text);
    lemma_split_lines_extend(fed, line);
}

/// Lines that hold no line feed, joined and cut again, are the same lines.
pub proof fn lemma_split_join(lines: Seq<Seq<char>>)
    requires
        lines.len() >= 1,
        forall|i: int| 0 <= i < lines.len() ==> no_line_feed(#[trigger] lines[i]),
    ensures
        split_lines(join_lines(lines)) == lines,
    decreases lines.len(),
{
    if lines.len() == 1 {
        lemma_split_lines_extend(Seq::empty(), lines[0]);
    } else {
        lemma_split_join(lines.drop_last());
        lemma_split_lines_next(join_lines(lines.drop_last()), lines.last());
    }
}

/// An item line read back says what was written.
pub proof fn lemma_read_entry(e: Entry)
    ensures
        read_entry(entry_text(e)) == Some(e),
{
    reveal_strlit(" x ");
    reveal_strlit(" - ");
    reveal_strlit("₩");
    let by = " x "@;
    let mark = " - "@ + "₩"@;
    let count = decimal_text(e.quantity);
    let amount = decimal_text(e.line_total);
    lemma_decimal_text_is_decimal(e.quantity);
    lemma_decimal_text_is_decimal(e.line_total);
    lemma_decimal_round_trip(e.quantity);
    lemma_decimal_round_trip(e.line_total);

    let line = entry_text(e);
    let front = e.name + by;
    let left = front + count;
    let head = left + mark;
    assert(line =~= head + amount);
    lemma_trailing_digits_after(head, amount);
    assert(line.take(line.len() - amount.len()) =~= head);
    assert(line.skip(line.len() - amount.len()) =~= amount);
    assert(head.skip(head.len() - mark.len()) =~= mark);
    assert(head.take(head.len() - mark.len()) =~= left);
    lemma_trailing_digits_after(front, count);
    assert(left.take(left.len() - count.len()) =~= front);
    assert(left.skip(left.len() - count.len()) =~= count);
    assert(front.skip(front.len() - by.len()) =~= by);
    assert(front.take(front.len() - by.len()) =~= e.name);
}

/// The total line read back says the total that was written.
pub proof fn lemma_read_total(total: nat)
    ensures
        read_total(total_text(total)) == Some(total),
{
    reveal_strlit("Total: ");
    reveal_strlit("₩");
    let lead = "Total: "@ + "₩"@;
    let amount = decimal_text(total);
    lemma_decimal_text_is_decimal(total);
    lemma_decimal_round_trip(total);
    let line = total_text(total);
    assert(line.take(lead.len() as int) =~= lead);
    assert(line.skip(lead.len() as int) =~= amount);
}

/// The text of a number holds no line feed.
pub proof fn lemma_decimal_text_no_line_feed(n: nat)
    ensures
        no_line_feed(decimal_text(n)),
{
    lemma_decimal_text_is_decimal(n);
}

/// The lines of a printed order hold no line feed, if the names do not.
pub proof fn lemma_receipt_lines_no_line_feed(r: Receipt)
    requires
        forall|i: int| 0 <= i < r.entries.len() ==> no_line_feed((#[trigger] r.entries[i]).name),
    ensures
        forall|i: int|
            0 <= i < receipt_lines(r).len() ==> no_line_feed(#[trigger] receipt_lines(r)[i]),
{
    reveal_strlit("=== 주문 내역 ===");
    reveal_strlit("====================");
    reveal_strlit("Total: ");
    reveal_strlit(" x ");
    reveal_strlit(" - ");
    reveal_strlit("₩");
    let lines = receipt_lines(r);
    lemma_decimal_text_no_line_feed(r.total);
    assert forall|i: int| 0 <= i < lines.len() implies no_line_feed(#[trigger] lines[i]) by {
        if 1 <= i <= r.entries.len() {
            let e = r.entries[i - 1];
            lemma_decimal_text_no_line_feed(e.quantity);
            lemma_decimal_text_no_line_feed(e.line_total);
        }
    }
}

/// A printed order read back line by line says what was written: the same
/// entries in the same order, and the same total. The names must hold no
/// line feed.
pub proof fn lemma_read_receipt(r: Receipt)
    requires
        forall|i: int| 0 <= i < r.entries.len() ==> no_line_feed((#[trigger] r.entries[i]).name),
    ensures
        read_receipt(receipt_text(r)) == Some(r),
{
    let lines = receipt_lines(r);
    lemma_receipt_lines_no_line_feed(r);
    lemma_split_join(lines);
    lemma_read_total(r.total);
    let body = lines.subrange(1, lines.len() - 2);
    assert forall|i: int| 0 <= i < body.len() implies read_entry(#[trigger] body[i]) == Some(
        r.entries[i],
    ) by {
        lemma_read_entry(r.entries[i]);
    }
    let read = body.map_values(|line: Seq<char>| read_entry(line).unwrap());
    assert(read =~= r.entries);
}

} // verus!
