use vstd::prelude::*;

verus! {

/// The data of all models one after the other, in model order, as the GPU
/// buffers of a scene hold it.
pub fn concat_model_data<T: Copy>(parts: &Vec<Vec<T>>) -> (all: Vec<T>)
    ensures
        all@ == parts@.map_values(|p: Vec<T>| p@).flatten(),
{
    let ghost views = parts@.map_values(|p: Vec<T>| p@);
    let mut all: Vec<T> = Vec::new();
    let mut i: usize = 0;
    while i < parts.len()
        invariant
            i <= parts.len(),
            views == parts@.map_values(|p: Vec<T>| p@),
            all@ == views.take(i as int).flatten(),
        decreases parts.len() - i,
    {
        let part = &parts[i];
        let ghost before = all@;
        let mut j: usize = 0;
        while j < part.len()
            invariant
                j <= part.len(),
                all@ == before + part@.take(j as int),
            decreases part.len() - j,
        {
            all.push(part[j]);
            j = j + 1;
            assert(all@ =~= before + part@.take(j as int));
        }
        proof {
            assert(part@.take(j as int) =~= part@);
            assert(views.take(i + 1) =~= views.take(i as int).push(views[i as int]));
            views.take(i as int).lemma_flatten_push(views[i as int]);
        }
        i = i + 1;
    }
    assert(views.take(i as int) =~= views);
    all
}

} // verus!
