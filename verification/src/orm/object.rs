//! Schema descriptions: how a stored type's fields map onto table columns,
//! and the lifecycle state of a cached object.

use vstd::prelude::*;
use vstd::string::StringSliceAdditionalSpecFns;
use crate::orm::data::DataType;
use crate::search::eq_bytes;

verus! {

/// One stored field: its name on the type, its column name, and its type.
pub struct Attribute {
    pub name: &'static str,
    pub col_name: &'static str,
    pub data_type: DataType,
}

/// How a stored type maps onto a table.
pub struct Schema {
    pub type_label: &'static str,
    pub table_name: &'static str,
    pub attrs: &'static [Attribute],
}

/// The index of the first attribute whose column name has the given UTF-8
/// bytes, or -1 when none has.
pub open spec fn attr_index_by_col(attrs: Seq<Attribute>, col: Seq<u8>) -> int
    decreases attrs.len(),
{
    if attrs.len() == 0 {
        -1
    } else if attrs[0].col_name.spec_bytes() == col {
        0
    } else {
        let r = attr_index_by_col(attrs.drop_first(), col);
        if r < 0 {
            -1
        } else {
            r + 1
        }
    }
}

/// What `attr_index_by_col` means: a negative answer is absence, a
/// nonnegative answer is the first matching attribute.
pub proof fn lemma_attr_index_by_col(attrs: Seq<Attribute>, col: Seq<u8>)
    ensures
        attr_index_by_col(attrs, col) < 0 ==> forall|j: int| 0 <= j < attrs.len() ==> (
        #[trigger] attrs[j]).col_name.spec_bytes() != col,
        attr_index_by_col(attrs, col) >= 0 ==> 0 <= attr_index_by_col(attrs, col) < attrs.len()
            && attrs[attr_index_by_col(attrs, col)].col_name.spec_bytes() == col && forall|j: int|
            0 <= j < attr_index_by_col(attrs, col) ==> (#[trigger] attrs[j]).col_name.spec_bytes()
            != col,
    decreases attrs.len(),
{
    if attrs.len() > 0 && attrs[0].col_name.spec_bytes() != col {
        lemma_attr_index_by_col(attrs.drop_first(), col);
        let rest = attrs.drop_first();
        let r = attr_index_by_col(rest, col);
        assert forall|j: int| 0 <= j < attrs.len() - 1 implies rest[j] == attrs[j + 1] by {}
        if r < 0 {
            assert forall|j: int| 0 <= j < attrs.len() implies (#[trigger] attrs[j]).col_name
                .spec_bytes() != col by {
                if j > 0 {
                    assert(rest[j - 1] == attrs[j]);
                }
            }
        } else {
            assert(attrs[r + 1] == rest[r]);
            assert forall|j: int| 0 <= j < r + 1 implies (#[trigger] attrs[j]).col_name
                .spec_bytes() != col by {
                if j > 0 {
                    assert(rest[j - 1] == attrs[j]);
                }
            }
        }
    }
}

impl Schema {
    /// The first attribute stored under the given column name, if any.
    pub fn find_attr_by_col(&self, col_name: &str) -> (r: Option<&Attribute>)
        ensures
            ({
                let idx = attr_index_by_col(self.attrs@, col_name.spec_bytes());
                &&& idx < 0 ==> r is None
                &&& idx >= 0 ==> (r matches Some(a) && *a == self.attrs@[idx])
            }),
    {
        proof {
            lemma_attr_index_by_col(self.attrs@, col_name.spec_bytes());
        }
        let target = col_name.as_bytes();
        let n = self.attrs.len();
        let mut i: usize = 0;
        while i < n
            invariant
                n == self.attrs@.len(),
                i <= n,
                forall|j: int| 0 <= j < i ==> (#[trigger] self.attrs@[j]).col_name.spec_bytes()
                    != col_name.spec_bytes(),
                target@ == col_name.spec_bytes(),
                ({
                    let idx = attr_index_by_col(self.attrs@, col_name.spec_bytes());
                    &&& idx >= 0 ==> 0 <= idx < n && self.attrs@[idx].col_name.spec_bytes()
                        == col_name.spec_bytes() && (forall|j: int|
                        0 <= j < idx ==> (#[trigger] self.attrs@[j]).col_name.spec_bytes()
                            != col_name.spec_bytes())
                    &&& idx < 0 ==> forall|j: int|
                        0 <= j < n ==> (#[trigger] self.attrs@[j]).col_name.spec_bytes()
                            != col_name.spec_bytes()
                }),
            decreases n - i,
        {
            if eq_bytes(self.attrs[i].col_name.as_bytes(), target) {
                return Some(&self.attrs[i]);
            }
            i += 1;
        }
        None
    }
}

/// The lifecycle state of a cached object within a transaction.
#[derive(Clone, Copy, Debug, PartialEq, Eq, Structural)]
pub enum ObjectState {
    Clean,
    Modified,
    Removed,
}

} // verus!
