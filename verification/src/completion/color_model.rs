//! Completion of the names of color models.
use vstd::prelude::*;
use crate::completion::cursor::fresh;
use crate::completion::cursor::views;
use crate::completion::cursor::CursorContext;
use crate::completion::cursor::GroupParent;
use crate::completion::cursor::InternalCompletionItem;
use crate::completion::cursor::InternalCompletionItemData;
use crate::completion::cursor::ItemDataView;
use crate::completion::cursor::ItemView;
use crate::completion::cursor::TextRange;

verus! {

/// The names of the color models.
pub open spec fn model_names() -> Seq<Seq<char>> {
    seq!["gray"@, "rgb"@, "RGB"@, "HTML"@, "cmyk"@]
}

/// The range to complete in where the cursor is in the model argument of
/// the definition of a color.
pub open spec fn color_definition_range(context: &CursorContext) -> Option<TextRange> {
    match context.curly_group_word {
        Some(group) => match group.parent {
            Some(GroupParent::ColorDefinition { model: Some(model) }) => if model
                == group.group_range {
                Some(group.range)
            } else {
                None
            },
            _ => None,
        },
        None => None,
    }
}

/// The range to complete in where the cursor is in the argument for the
/// models of the definition of a set of colors.
pub open spec fn color_definition_set_range(context: &CursorContext) -> Option<TextRange> {
    match context.curly_group_word_list {
        Some(group) => match group.parent {
            Some(GroupParent::ColorSetDefinition { model_list: Some(list) }) => if list
                == group.group_range {
                Some(group.range)
            } else {
                None
            },
            _ => None,
        },
        None => None,
    }
}

/// The range in which a color model is completed: that of the definition of
/// a color, or else that of the definition of a set of colors.
pub open spec fn color_model_range(context: &CursorContext) -> Option<TextRange> {
    match color_definition_range(context) {
        Some(range) => Some(range),
        None => color_definition_set_range(context),
    }
}

/// One item for each color model, in the order of the names.
pub open spec fn color_model_items(range: TextRange) -> Seq<ItemView> {
    Seq::new(
        model_names().len(),
        |i: int| fresh(range, ItemDataView::ColorModel { name: model_names()[i] }),
    )
}

/// The range to complete in where the cursor is in the model argument of
/// the definition of a color.
pub fn check_color_definition(context: &CursorContext) -> (r: Option<TextRange>)
    ensures
        r == color_definition_range(context),
{
    match context.curly_group_word {
        Some(group) => match group.parent {
            Some(GroupParent::ColorDefinition { model: Some(model) }) => {
                if model.same(group.group_range) {
                    Some(group.range)
                } else {
                    None
                }
            },
            _ => None,
        },
        None => None,
    }
}

/// The range to complete in where the cursor is in the argument for the
/// models of the definition of a set of colors.
pub fn check_color_definition_set(context: &CursorContext) -> (r: Option<TextRange>)
    ensures
        r == color_definition_set_range(context),
{
    match context.curly_group_word_list {
        Some(group) => match group.parent {
            Some(GroupParent::ColorSetDefinition { model_list: Some(list) }) => {
                if list.same(group.group_range) {
                    Some(group.range)
                } else {
                    None
                }
            },
            _ => None,
        },
        None => None,
    }
}

/// The names of the color models.
fn names() -> (r: Vec<&'static str>)
    ensures
        r@.len() == model_names().len(),
        forall|i: int| 0 <= i < r@.len() ==> (#[trigger] r@[i])@ == model_names()[i],
{
    vec!["gray", "rgb", "RGB", "HTML", "cmyk"]
}

/// Where the cursor is in the model argument of the definition of a color
/// or of a set of colors, appends one item for each color model. Elsewhere
/// it appends nothing and returns nothing.
pub fn complete_color_models(context: &CursorContext, items: &mut Vec<InternalCompletionItem>) -> (r:
    Option<()>)
    ensures
        r.is_some() == color_model_range(context).is_some(),
        views(final(items)@) == (match color_model_range(context) {
            Some(range) => views(old(items)@) + color_model_items(range),
            None => views(old(items)@),
        }),
{
    let range = match check_color_definition(context) {
        Some(range) => range,
        None => match check_color_definition_set(context) {
            Some(range) => range,
            None => {
                return None;
            },
        },
    };
    let all = names();
    let mut i: usize = 0;
    while i < all.len()
        invariant
            i <= all@.len(),
            all@.len() == model_names().len(),
            forall|j: int| 0 <= j < all@.len() ==> (#[trigger] all@[j])@ == model_names()[j],
            items@.len() == old(items)@.len() + i,
            forall|j: int| 0 <= j < old(items)@.len() ==> items@[j] == old(items)@[j],
            forall|j: int|
                0 <= j < i ==> (#[trigger] items@[old(items)@.len() + j])@ == fresh(
                    range,
                    ItemDataView::ColorModel { name: model_names()[j] },
                ),
        decreases all@.len() - i,
    {
        items.push(
            InternalCompletionItem::new(
                range,
                InternalCompletionItemData::ColorModel { name: String::from_str(all[i]) },
            ),
        );
        i += 1;
    }
    proof {
        let before = views(old(items)@);
        let wanted = before + color_model_items(range);
        assert(views(items@).len() == wanted.len());
        assert forall|j: int| 0 <= j < wanted.len() implies views(items@)[j] == wanted[j] by {
            if j >= before.len() {
                let k = j - before.len();
                assert(items@[old(items)@.len() + k]@ == fresh(
                    range,
                    ItemDataView::ColorModel { name: model_names()[k] },
                ));
            }
        }
        assert(views(items@) =~= wanted);
    }
    Some(())
}

} // verus!
