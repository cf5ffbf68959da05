//! Completion of `\begin` as a command.
use vstd::prelude::*;
use crate::completion::cursor::fresh;
use crate::completion::cursor::views;
use crate::completion::cursor::CursorContext;
use crate::completion::cursor::InternalCompletionItem;
use crate::completion::cursor::InternalCompletionItemData;
use crate::completion::cursor::ItemDataView;

verus! {

/// Where the cursor is on a command name, appends the item of the `\begin`
/// command for the range of the name. Elsewhere it appends nothing and
/// returns nothing.
pub fn complete_begin_command(context: &CursorContext, items: &mut Vec<InternalCompletionItem>) -> (r:
    Option<()>)
    ensures
        r.is_some() == context.cursor.command_range_of(context.offset).is_some(),
        views(final(items)@) == (match context.cursor.command_range_of(context.offset) {
            Some(range) => views(old(items)@).push(fresh(range, ItemDataView::BeginCommand)),
            None => views(old(items)@),
        }),
{
    match context.cursor.command_range(context.offset) {
        Some(range) => {
            items.push(InternalCompletionItem::new(range, InternalCompletionItemData::BeginCommand));
            assert(views(items@) =~= views(old(items)@).push(
                fresh(range, ItemDataView::BeginCommand),
            ));
            Some(())
        },
        None => None,
    }
}

} // verus!
