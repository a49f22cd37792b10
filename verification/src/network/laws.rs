//! What ranges, their cache and their requests promise, stated over inputs and results.

use vstd::arithmetic::div_mod::{
    lemma_div_is_ordered, lemma_div_pos_is_pos, lemma_fundamental_div_mod, lemma_mod_bound,
};
use vstd::prelude::*;
use vstd::set_lib::lemma_len_subset;
use vstd::utf8::encode_utf8;

use super::cache::{is_ready, steps, CacheAction, CacheEvent, CacheView};
use super::content_range::{content_range, is_digit, number_of, ParsedContentRange};
use super::error::NetworkError;
use super::http::{
    header_of, range_text, request_error, request_fields, shown_name, validator_of, ObjectView,
    ValidatorView,
};
use super::range::{
    block_bytes, block_end, block_start, clipped, end_block, first_block, visited, CachedView,
};
use crate::text::decimal;

verus! {

/// A range that a server says is not empty and lies in the object.
pub proof fn law_ranges_lie_in_their_object(text: Seq<char>, range: ParsedContentRange)
    requires
        content_range(text) == Ok::<ParsedContentRange, NetworkError>(range),
    ensures
        range.start < range.end,
        range.end <= range.total,
{
}

/// A digit behind a number makes it ten times as large and adds its own value.
pub proof fn law_digits_count_in_tens(digits: Seq<char>, value: u64, digit: char, d: nat)
    requires
        digits.len() > 0,
        number_of(digits) == Some(value),
        digits[0] != '+',
        d < 10,
        digit as int == 48 + d,
    ensures
        10 * value + d <= u64::MAX ==> number_of(digits.push(digit)) == Some(
            (10 * value + d) as u64,
        ),
        10 * value + d > u64::MAX ==> number_of(digits.push(digit)) is None,
{
    let longer = digits.push(digit);
    assert(longer.drop_last() =~= digits);
    assert forall|i: int| 0 <= i < longer.len() implies is_digit(
        #[trigger] longer[i],
    ) by {
        if i < digits.len() {
            assert(longer[i] == digits[i]);
            assert(is_digit(digits[i]));
        }
    }
}

/// A request is cut off at the end of the object.
pub proof fn law_requests_end_with_the_object(total: nat, offset: nat, requested: nat)
    ensures
        ({
            let count = clipped(total as int, offset as int, requested as int);
            &&& 0 <= count <= requested
            &&& count > 0 ==> offset + count <= total
            &&& offset + requested <= total ==> count == requested
            &&& offset < total < offset + requested ==> offset + count == total
            &&& total <= offset ==> count == 0
        }),
{
}

/// Every byte of an object stands in the block that its place divided by the size of
/// blocks names, as far from its start as the remainder says.
pub proof fn law_blocks_hold_every_byte(content: Seq<u8>, block_size: int, place: int)
    requires
        block_size > 0,
        0 <= place < content.len(),
    ensures
        ({
            let index = place / block_size;
            let block = block_bytes(content, block_size, index);
            &&& place % block_size < block.len() <= block_size
            &&& block[place % block_size] == content[place]
        }),
{
    let index = place / block_size;
    lemma_fundamental_div_mod(place, block_size);
    lemma_mod_bound(place, block_size);
    assert(index >= 0) by {
        lemma_div_pos_is_pos(place, block_size);
    }
    assert(block_size * index == index * block_size) by (nonlinear_arith);
    assert(index * block_size >= 0) by (nonlinear_arith)
        requires
            index >= 0,
            block_size > 0,
    ;
    let start = block_start(block_size, index);
    let end = block_end(content.len() as int, block_size, index);
    assert(start + place % block_size == place);
    assert(start <= place < end <= content.len());
}

/// Blocks follow each other without a gap, and only the last is shorter.
pub proof fn law_blocks_follow_each_other(length: int, block_size: int, index: int)
    requires
        block_size > 0,
        0 <= index,
        (index + 1) * block_size <= length,
    ensures
        block_end(length, block_size, index) == block_start(block_size, index + 1),
        block_end(length, block_size, index) - block_start(block_size, index) == block_size,
{
    assert((index + 1) * block_size == index * block_size + block_size) by (nonlinear_arith);
}

/// The blocks of a request are those that hold its bytes.
pub proof fn law_requests_take_the_blocks_of_their_bytes(
    view: CachedView,
    offset: int,
    requested: int,
    place: int,
)
    requires
        view.block_size > 0,
        0 <= offset <= place < offset + requested,
        place < view.content.len(),
    ensures
        first_block(view, offset) <= place / view.block_size as int,
        place / (view.block_size as int) < end_block(view, offset, requested),
{
    let size = view.block_size as int;
    let count = clipped(view.content.len() as int, offset, requested);
    lemma_div_is_ordered(offset, place, size);
    lemma_div_is_ordered(place, offset + count - 1, size);
}

/// A request takes no block behind its last byte.
pub proof fn law_requests_take_no_more_blocks(view: CachedView, offset: int, requested: int)
    requires
        view.block_size > 0,
        0 <= offset < view.content.len(),
        requested > 0,
        offset + requested <= view.content.len(),
    ensures
        first_block(view, offset) * view.block_size <= offset,
        (end_block(view, offset, requested) - 1) * view.block_size < offset + requested,
{
    let size = view.block_size as int;
    lemma_fundamental_div_mod(offset, size);
    lemma_mod_bound(offset, size);
    let last = offset + requested - 1;
    lemma_fundamental_div_mod(last, size);
    lemma_mod_bound(last, size);
    assert((offset / size) * size == size * (offset / size)) by (nonlinear_arith);
    assert((last / size) * size == size * (last / size)) by (nonlinear_arith);
}

/// A use of a block is a hit or a miss, and one of the two counters goes up.
pub proof fn law_uses_are_hits_or_misses(
    before: CachedView,
    after: CachedView,
    index: u64,
    came: bool,
)
    requires
        visited(before, after, index, came),
    ensures
        before.blocks.contains_key(index) ==> {
            &&& after.stats.cache_hits == (before.stats.cache_hits + 1) % 0x1_0000_0000_0000_0000
            &&& after.stats.cache_misses == before.stats.cache_misses
            &&& after.stats.range_requests == before.stats.range_requests
            &&& after.stats.fetched_bytes == before.stats.fetched_bytes
            &&& after.stats.evicted_blocks == before.stats.evicted_blocks
        },
        !before.blocks.contains_key(index) ==> {
            &&& after.stats.cache_hits == before.stats.cache_hits
            &&& after.stats.cache_misses == (before.stats.cache_misses + 1)
                % 0x1_0000_0000_0000_0000
            &&& !came ==> after.stats.fetched_bytes == before.stats.fetched_bytes
        },
        came ==> after.blocks.contains_key(index),
{
}

/// A block that is being fetched is not forgotten for another.
pub proof fn law_blocks_that_are_fetched_stay<E>(
    before: CacheView<E>,
    after: CacheView<E>,
    index: u64,
    entry: E,
    maximum: int,
    action: CacheAction,
    evicted: int,
    fetched: u64,
)
    requires
        steps(
            before,
            after,
            index,
            CacheEvent::Wanted { entry },
            maximum,
            action,
            evicted,
        ),
        before.blocks.contains_key(fetched),
        before.blocks[fetched].loading,
    ensures
        after.blocks.contains_key(fetched),
        after.blocks[fetched].loading,
{
    if !before.blocks.contains_key(index) {
        let kept = after.blocks.remove(index);
        if !kept.contains_key(fetched) {
            assert(is_ready(before.blocks, fetched));
        }
    }
}

/// A block that is wanted is fetched by the first that wants it alone. Whoever else
/// wants it waits, until it is there or could not be had.
pub proof fn law_blocks_are_fetched_once<E>(
    before: CacheView<E>,
    middle: CacheView<E>,
    after: CacheView<E>,
    index: u64,
    first: E,
    second: E,
    maximum: int,
    actions: Seq<CacheAction>,
    evicted: Seq<int>,
)
    requires
        !before.blocks.contains_key(index),
        steps(
            before,
            middle,
            index,
            CacheEvent::Wanted { entry: first },
            maximum,
            actions[0],
            evicted[0],
        ),
        steps(
            middle,
            after,
            index,
            CacheEvent::Wanted { entry: second },
            maximum,
            actions[1],
            evicted[1],
        ),
    ensures
        actions[0] is Fetch,
        actions[1] is Wait,
        evicted[1] == 0,
        after.blocks[index].entry == first,
        after.blocks[index].loading,
{
}

/// A block that could not be had is forgotten, and the next that wants it fetches it.
pub proof fn law_failed_blocks_are_fetched_again<E>(
    before: CacheView<E>,
    middle: CacheView<E>,
    after: CacheView<E>,
    index: u64,
    entry: E,
    maximum: int,
    actions: Seq<CacheAction>,
    evicted: Seq<int>,
)
    requires
        steps(
            before,
            middle,
            index,
            CacheEvent::<E>::Failed { current: true },
            maximum,
            actions[0],
            evicted[0],
        ),
        steps(
            middle,
            after,
            index,
            CacheEvent::Wanted { entry },
            maximum,
            actions[1],
            evicted[1],
        ),
    ensures
        !middle.blocks.contains_key(index),
        actions[0] is Deliver,
        actions[1] is Fetch,
        after.blocks[index].entry == entry,
{
}

/// Where no block is being fetched, the block that was used last is not forgotten for
/// another, as long as there is room for two.
pub proof fn law_the_newest_block_stays<E>(
    before: CacheView<E>,
    after: CacheView<E>,
    index: u64,
    entry: E,
    maximum: int,
    action: CacheAction,
    evicted: int,
    newest: u64,
)
    requires
        steps(
            before,
            after,
            index,
            CacheEvent::Wanted { entry },
            maximum,
            action,
            evicted,
        ),
        maximum >= 2,
        before.blocks.dom().finite(),
        forall|other: u64| #[trigger]
            before.blocks.contains_key(other) ==> !before.blocks[other].loading,
        before.blocks.contains_key(newest),
        forall|other: u64| #[trigger]
            before.blocks.contains_key(other) && other != newest ==> before.blocks[other].last_used
                < before.blocks[newest].last_used,
    ensures
        after.blocks.contains_key(newest),
{
    if !before.blocks.contains_key(index) && newest != index {
        let kept = after.blocks.remove(index);
        if !kept.contains_key(newest) {
            assert(kept.dom().subset_of(before.blocks.dom().remove(newest)));
            lemma_len_subset(kept.dom(), before.blocks.dom().remove(newest));
            assert(evicted > 0);
            assert(kept.len() >= 1);
            let left = kept.dom().choose();
            assert(kept.dom().contains(left));
            assert(before.blocks.contains_key(left));
            assert(is_ready(kept, left));
            assert(before.blocks.contains_key(newest) && !kept.contains_key(newest));
        }
    }
}

/// A range may be asked for where it is not empty and lies in the object.
pub proof fn law_requests_lie_in_their_object(object: ObjectView, start: u64, end: u64)
    ensures
        request_error(object, start, end) is None <==> start < end && end <= object.content_length,
{
}

/// A range is asked for by its first and its last byte, as the answer names them behind
/// its unit.
pub proof fn law_requests_name_first_and_last_byte(start: u64, last: u64)
    requires
        start <= last < u64::MAX,
    ensures
        range_text(start, (last + 1) as u64) == "bytes="@ + decimal(start as nat) + "-"@ + decimal(
            last as nat,
        ),
{
}

/// A request asks for its range and for bytes as they are. Where the version is known it
/// asks for that, and all other headers stay.
pub proof fn law_requests_state_range_and_version(
    headers: Map<Seq<char>, Seq<Seq<u8>>>,
    start: u64,
    end: u64,
    validator: Option<ValidatorView>,
    name: Seq<char>,
)
    requires
        start < end,
        name != "accept-encoding"@,
        name != "range"@,
        name != "if-range"@,
    ensures
        ({
            let sent = request_fields(headers, start, end, validator);
            &&& sent.contains_key(name) <==> headers.contains_key(name)
            &&& headers.contains_key(name) ==> sent[name] == headers[name]
            &&& header_of(sent, "range"@) == Some(
                encode_utf8(
                    "bytes="@ + decimal(start as nat) + "-"@ + decimal((end - 1) as nat),
                ),
            )
            &&& header_of(sent, "accept-encoding"@) == Some(encode_utf8("identity"@))
            &&& validator matches Some(version) ==> header_of(sent, "if-range"@) == Some(
                version.value,
            )
        }),
{
    reveal_strlit("accept-encoding");
    reveal_strlit("range");
    reveal_strlit("if-range");
    assert("accept-encoding"@.len() != "range"@.len());
    assert("if-range"@.len() != "range"@.len());
    assert("if-range"@.len() != "accept-encoding"@.len());
}

/// The version of an object is told by its entity tag. A weak one, which begins with
/// `W/`, does not count, and the time of its last change stands in.
pub proof fn law_versions_are_told_by_strong_tags(headers: Map<Seq<char>, Seq<Seq<u8>>>)
    ensures
        ({
            let tag = header_of(headers, "etag"@);
            let time = header_of(headers, "last-modified"@);
            let weak = tag is Some && tag->0.len() >= 2 && tag->0[0] == 87 && tag->0[1] == 47;
            match validator_of(headers) {
                Some(version) => {
                    &&& tag is Some && !weak ==> version.name == "etag"@ && version.value == tag->0
                    &&& tag is None || weak ==> version.name == "last-modified"@ && time == Some(
                        version.value,
                    )
                },
                None => (tag is None || weak) && time is None,
            }
        }),
{
}

/// The names of headers with credentials are not shown.
pub proof fn law_credentials_are_not_shown(name: Seq<char>)
    ensures
        name == "authorization"@ || name == "proxy-authorization"@ || name == "cookie"@
            ==> shown_name(name) == "<sensitive>"@,
        !(name == "authorization"@ || name == "proxy-authorization"@ || name == "cookie"@)
            ==> shown_name(name) == name,
{
}

} // verus!
