//! What an agent context sees: its own tools, system prompt segments,
//! history and directory first, then those of the contexts it was made
//! from, and last the session's.

use vstd::prelude::*;
use crate::json::str_eq;

verus! {

/// Every position of a list of layers, layer by layer, in order.
pub open spec fn positions(sizes: Seq<nat>) -> Seq<(int, int)>
    decreases sizes.len(),
{
    if sizes.len() == 0 {
        Seq::empty()
    } else {
        positions(sizes.drop_last()) + Seq::new(sizes.last(), |j: int| ((sizes.len() - 1) as int, j))
    }
}

/// The tool ids of the layers, flattened in order.
pub open spec fn layer_sizes(layers: Seq<Seq<Seq<char>>>) -> Seq<nat> {
    layers.map_values(|l: Seq<Seq<char>>| l.len())
}

/// The positions whose tool id passes the whitelist (all of them without one).
pub open spec fn allowed(layers: Seq<Seq<Seq<char>>>, ps: Seq<(int, int)>, whitelist: Option<Seq<Seq<char>>>) -> Seq<(int, int)>
    decreases ps.len(),
{
    if ps.len() == 0 {
        Seq::empty()
    } else {
        let rest = allowed(layers, ps.drop_last(), whitelist);
        let p = ps.last();
        match whitelist {
            None => rest.push(p),
            Some(w) => if w.contains(layers[p.0][p.1]) { rest.push(p) } else { rest },
        }
    }
}

/// The tools a context sees, as positions `(layer, index)`: none when tools
/// are disabled; otherwise every tool of every layer (the context's own
/// first, the session's last), keeping only whitelisted ids when there is a
/// whitelist.
pub open spec fn visible(layers: Seq<Seq<Seq<char>>>, disabled: bool, whitelist: Option<Seq<Seq<char>>>) -> Seq<(int, int)> {
    if disabled {
        Seq::empty()
    } else {
        allowed(layers, positions(layer_sizes(layers)), whitelist)
    }
}

/// The id lists of the layers.
pub open spec fn id_layers(layers: Seq<Vec<String>>) -> Seq<Seq<Seq<char>>> {
    layers.map_values(|l: Vec<String>| l@.map_values(|s: String| s@))
}

fn listed(list: &[String], id: &str) -> (r: bool)
    ensures
        r == list@.map_values(|s: String| s@).contains(id@),
{
    let ghost m = list@.map_values(|s: String| s@);
    let mut i: usize = 0;
    while i < list.len()
        invariant
            m == list@.map_values(|s: String| s@),
            i <= list@.len(),
            forall|j: int| 0 <= j < i ==> m[j] != id@,
        decreases list@.len() - i,
    {
        if str_eq(list[i].as_str(), id) {
            assert(m[i as int] == id@);
            return true;
        }
        i = i + 1;
    }
    false
}

/// The tools a context sees (see [`visible`]), given the tool ids of each
/// layer, from the context itself to the session.
pub fn visible_tools(layers: &[Vec<String>], disabled: bool, whitelist: Option<&[String]>) -> (r: Vec<(usize, usize)>)
    ensures
        r@.map_values(|p: (usize, usize)| (p.0 as int, p.1 as int)) == visible(
            id_layers(layers@),
            disabled,
            match whitelist {
                Some(w) => Some(w@.map_values(|s: String| s@)),
                None => None,
            },
        ),
{
    let ghost ls = id_layers(layers@);
    let ghost wl = match whitelist {
        Some(w) => Some(w@.map_values(|s: String| s@)),
        None => None,
    };
    let mut out: Vec<(usize, usize)> = Vec::new();
    if disabled {
        assert(out@.map_values(|p: (usize, usize)| (p.0 as int, p.1 as int)) =~= Seq::<(int, int)>::empty());
        return out;
    }
    let mut k: usize = 0;
    assert(layer_sizes(ls).take(0) =~= Seq::<nat>::empty());
    assert(out@.map_values(|p: (usize, usize)| (p.0 as int, p.1 as int)) =~= Seq::<(int, int)>::empty());
    while k < layers.len()
        invariant
            ls == id_layers(layers@),
            wl == match whitelist {
                Some(w) => Some(w@.map_values(|s: String| s@)),
                None => None,
            },
            k <= layers@.len(),
            out@.map_values(|p: (usize, usize)| (p.0 as int, p.1 as int)) == allowed(
                ls,
                positions(layer_sizes(ls).take(k as int)),
                wl,
            ),
        decreases layers@.len() - k,
    {
        let ghost before_ps = positions(layer_sizes(ls).take(k as int));
        let layer = &layers[k];
        let mut j: usize = 0;
        while j < layer.len()
            invariant
                ls == id_layers(layers@),
                wl == match whitelist {
                    Some(w) => Some(w@.map_values(|s: String| s@)),
                    None => None,
                },
                k < layers@.len(),
                layer@ == layers@[k as int]@,
                j <= layer@.len(),
                out@.map_values(|p: (usize, usize)| (p.0 as int, p.1 as int)) == allowed(
                    ls,
                    before_ps + Seq::new(j as nat, |q: int| (k as int, q)),
                    wl,
                ),
            decreases layer@.len() - j,
        {
            let ghost ps = before_ps + Seq::new(j as nat, |q: int| (k as int, q));
            let ghost ps1 = before_ps + Seq::new((j + 1) as nat, |q: int| (k as int, q));
            assert(ps1.drop_last() =~= ps);
            assert(ps1.last() == (k as int, j as int));
            assert(ls[k as int][j as int] == layer@[j as int]@);
            let keep = match whitelist {
                None => true,
                Some(w) => listed(w, layer[j].as_str()),
            };
            let ghost before = out@;
            if keep {
                out.push((k, j));
                assert(out@.map_values(|p: (usize, usize)| (p.0 as int, p.1 as int)) =~= before.map_values(
                    |p: (usize, usize)| (p.0 as int, p.1 as int),
                ).push((k as int, j as int)));
            }
            j = j + 1;
        }
        proof {
            let sz = layer_sizes(ls);
            assert(sz.take(k as int + 1).drop_last() =~= sz.take(k as int));
            assert(sz.take(k as int + 1).last() == layer@.len());
            assert(positions(sz.take(k as int + 1)) =~= before_ps + Seq::new(layer@.len(), |q: int| (k as int, q)));
        }
        k = k + 1;
    }
    assert(layer_sizes(ls).take(layers@.len() as int) =~= layer_sizes(ls));
    out
}

/// The first layer that has its own value (history or directory), from the
/// context itself towards the session.
pub fn first_layer_with(flags: &[bool]) -> (r: Option<usize>)
    ensures
        match r {
            Some(i) => i < flags@.len() && flags@[i as int] && forall|j: int| 0 <= j < i ==> !flags@[j],
            None => forall|j: int| 0 <= j < flags@.len() ==> !flags@[j],
        },
{
    let mut i: usize = 0;
    while i < flags.len()
        invariant
            i <= flags@.len(),
            forall|j: int| 0 <= j < i ==> !flags@[j],
        decreases flags@.len() - i,
    {
        if flags[i] {
            return Some(i);
        }
        i = i + 1;
    }
    None
}

} // verus!
