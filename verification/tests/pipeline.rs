use fusequery::exception::ErrorKind;
use fusequery::pipelines::pipeline::OperatorParams;
use fusequery::pipelines::pipeline::Pipe;
use fusequery::pipelines::pipeline::PipeItem;
use fusequery::pipelines::pipeline::Pipeline;
use fusequery::pipelines::pipeline::Processor;
use fusequery::pipelines::pipeline::ProcessorPtr;
use fusequery::pipelines::pipeline::ProfileWrapper;
use fusequery::pipelines::pipeline::SharedProcessorProfiles;

fn source() -> ProcessorPtr {
    ProcessorPtr::create(Processor::TableSource { plan_id: 1 })
}

#[test]
fn an_empty_pipeline_is_nothing() {
    let p = Pipeline::create();
    assert!(p.is_empty());
    assert_eq!(p.output_len(), 0);
    assert_eq!(p.is_pulling_pipeline().unwrap_err().kind(), ErrorKind::Internal);
    assert_eq!(p.is_pushing_pipeline().unwrap_err().kind(), ErrorKind::Internal);
    assert_eq!(p.is_complete_pipeline().unwrap(), false);
}

#[test]
fn sources_open_a_pulling_pipeline() {
    let mut p = Pipeline::create();
    assert!(p.add_source(source(), 3).is_ok());
    assert_eq!(p.output_len(), 3);
    assert_eq!(p.pipes.len(), 1);
    assert_eq!(p.pipes[0].items.len(), 3);
    assert_eq!(p.pipes[0].input_length, 0);
    assert_eq!(p.pipes[0].output_length, 3);
    assert_eq!(p.pipes[0].items[2], PipeItem::create(source(), None, 0, 1));
    assert!(p.is_pulling_pipeline().unwrap());
    assert!(!p.is_pushing_pipeline().unwrap());
    assert!(!p.is_complete_pipeline().unwrap());
}

#[test]
fn no_source_without_an_output() {
    let mut p = Pipeline::create();
    assert_eq!(p.add_source(source(), 0).unwrap_err().kind(), ErrorKind::Internal);
    assert!(p.is_empty());
}

#[test]
fn a_transform_stands_behind_each_output() {
    let mut p = Pipeline::create();
    p.add_source(source(), 2).unwrap();
    let params = OperatorParams::Project { projection: vec![1, 0], num_input_columns: 2 };
    p.add_transform(ProcessorPtr::create(Processor::Project), Some(params)).unwrap();
    assert_eq!(p.output_len(), 2);
    assert_eq!(p.pipes[1].input_length, 2);
    assert_eq!(p.pipes[1].items.len(), 2);
    // both processors were made from the one operator
    assert_eq!(p.pipes[1].items[0].params, Some(0));
    assert_eq!(p.pipes[1].items[1].params, Some(0));
    assert_eq!(p.operators.len(), 1);
    match &p.operators[0] {
        OperatorParams::Project { projection, num_input_columns } => {
            assert_eq!(projection, &vec![1, 0]);
            assert_eq!(*num_input_columns, 2);
        }
        _ => panic!("not a projection"),
    }
}

#[test]
fn sinks_complete_a_pipeline() {
    let mut p = Pipeline::create();
    p.add_source(source(), 2).unwrap();
    p.add_sink(ProcessorPtr::create(Processor::EmptySink)).unwrap();
    assert_eq!(p.output_len(), 0);
    assert_eq!(p.pipes[1].items[0], PipeItem::create(ProcessorPtr::create(Processor::EmptySink), None, 1, 0));
    assert!(p.is_complete_pipeline().unwrap());
    assert!(!p.is_pulling_pipeline().unwrap());
}

#[test]
fn resize_adds_one_processor_or_none() {
    let mut p = Pipeline::create();
    p.add_source(source(), 4).unwrap();
    p.try_resize(4).unwrap();
    assert_eq!(p.pipes.len(), 1);
    p.try_resize(1).unwrap();
    assert_eq!(p.pipes.len(), 2);
    assert_eq!(p.output_len(), 1);
    assert_eq!(
        p.pipes[1].items,
        vec![PipeItem::create(ProcessorPtr::create(Processor::Resize), None, 4, 1)]
    );
    assert_eq!(p.pipes[1].input_length, 4);
}

#[test]
fn nothing_to_resize_or_duplicate_without_outputs() {
    let mut p = Pipeline::create();
    assert_eq!(p.try_resize(2).unwrap_err().kind(), ErrorKind::Internal);
    assert_eq!(p.duplicate(false).unwrap_err().kind(), ErrorKind::Internal);
    p.add_source(source(), 1).unwrap();
    p.add_sink(ProcessorPtr::create(Processor::EmptySink)).unwrap();
    assert_eq!(p.try_resize(2).unwrap_err().kind(), ErrorKind::Internal);
    assert_eq!(p.duplicate(true).unwrap_err().kind(), ErrorKind::Internal);
    assert_eq!(p.pipes.len(), 2);
}

#[test]
fn duplicate_doubles_every_output() {
    let mut p = Pipeline::create();
    p.add_source(source(), 3).unwrap();
    p.duplicate(false).unwrap();
    assert_eq!(p.output_len(), 6);
    assert_eq!(p.pipes[1].input_length, 3);
    assert_eq!(p.pipes[1].items.len(), 3);
    assert_eq!(
        p.pipes[1].items[0],
        PipeItem::create(
            ProcessorPtr::create(Processor::Duplicate { force_finish_together: false }),
            None,
            1,
            2
        )
    );
}

#[test]
fn a_merge_takes_all_outputs() {
    let mut p = Pipeline::create();
    p.add_source(source(), 3).unwrap();
    p.add_merge(ProcessorPtr::create(Processor::MultiSortMerge), None);
    assert_eq!(p.output_len(), 1);
    assert_eq!(
        p.pipes[1].items,
        vec![PipeItem::create(ProcessorPtr::create(Processor::MultiSortMerge), None, 3, 1)]
    );
}

#[test]
fn add_pipe_puts_the_pipe_last() {
    let mut p = Pipeline::create();
    p.add_pipe(Pipe::create(0, 2, vec![PipeItem::create(source(), None, 0, 2)]));
    assert_eq!(p.output_len(), 2);
    assert!(p.is_pulling_pipeline().unwrap());
}

#[test]
fn profiling_counts_for_the_plan() {
    let sink = SharedProcessorProfiles { handle: 3 };
    assert_eq!(
        ProcessorPtr::profiled(Processor::Filter, true, 9, sink).profile,
        Some(ProfileWrapper { plan_id: 9, prof_span_set: sink })
    );
    assert_eq!(ProcessorPtr::profiled(Processor::Filter, false, 9, sink).profile, None);
    assert_eq!(ProcessorPtr::create(Processor::Filter).profile, None);
}
