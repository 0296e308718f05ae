//! What the host keeps of a receipt between connections and redraws.

use vstd::prelude::*;
use crate::element::elements_view;
use crate::element::ElementModel;
use crate::element::ReceiptElement;
use crate::paper::PaperSize;

verus! {

/// The receipt on display, the open connections and the paper fitted.
pub struct AppState {
    /// Elements of the receipt, oldest first.
    pub elements: Vec<ReceiptElement>,
    /// One line of text for each open connection.
    pub connections: Vec<String>,
    pub paper_size: PaperSize,
}

impl AppState {
    /// The elements of the receipt as mathematical values.
    pub open spec fn receipt(&self) -> Seq<ElementModel> {
        elements_view(self.elements@)
    }

    /// An empty receipt on 80 mm paper, with no connection open.
    pub fn new() -> (state: AppState)
        ensures
            state.receipt() == Seq::<ElementModel>::empty(),
            state.connections@ == Seq::<String>::empty(),
            state.paper_size == PaperSize::Size80mm,
    {
        let state = AppState {
            elements: Vec::new(),
            connections: Vec::new(),
            paper_size: PaperSize::Size80mm,
        };
        assert(state.receipt() =~= Seq::empty());
        state
    }

    /// Appends what a connection has printed to the receipt.
    pub fn extend_elements(&mut self, new_elements: Vec<ReceiptElement>)
        ensures
            final(self).receipt() == old(self).receipt() + elements_view(new_elements@),
            final(self).connections == old(self).connections,
            final(self).paper_size == old(self).paper_size,
    {
        let ghost added = new_elements@;
        let mut new_elements = new_elements;
        self.elements.append(&mut new_elements);
        assert(self.receipt() =~= old(self).receipt() + elements_view(added));
    }

    /// Tears the receipt off: no element is left.
    pub fn clear(&mut self)
        ensures
            final(self).receipt() == Seq::<ElementModel>::empty(),
            final(self).connections == old(self).connections,
            final(self).paper_size == old(self).paper_size,
    {
        self.elements.clear();
        assert(self.receipt() =~= Seq::empty());
    }

    /// Fits another paper size. A change of size tears the receipt off;
    /// fitting the size already in use changes nothing. Returns whether the
    /// size changed.
    pub fn select_paper_size(&mut self, size: PaperSize) -> (changed: bool)
        ensures
            changed == (size != old(self).paper_size),
            final(self).paper_size == size,
            final(self).connections == old(self).connections,
            final(self).receipt() == if changed {
                Seq::<ElementModel>::empty()
            } else {
                old(self).receipt()
            },
    {
        if size == self.paper_size {
            false
        } else {
            self.paper_size = size;
            self.clear();
            true
        }
    }
}

} // verus!
